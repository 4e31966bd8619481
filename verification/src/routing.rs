use vstd::prelude::*;

verus! {

/// Threshold of the key generation run by this module (`t`: any `t + 1`
/// parties can sign).
pub const KEYGEN_THRESHOLD: u16 = 1;

/// Number of parties taking part in key generation.
pub const KEYGEN_PARTIES: u16 = 3;

/// Number of parties taking part in the online signing stage.
pub const SIGNING_PARTIES: usize = 2;

/// Whether party `index` takes a protocol message sent by `sender` to
/// `receiver` (`None`: to everyone): it never takes its own messages, and
/// takes broadcasts and messages addressed to it.
pub open spec fn addressed_to(index: u16, sender: u16, receiver: Option<u16>) -> bool {
    sender != index && (receiver is None || receiver == Some(index))
}

/// Decides whether party `index` keeps an incoming protocol message with the
/// given sender and receiver; the others are dropped before the protocol
/// sees them.
pub fn accepts_message(index: u16, sender: u16, receiver: Option<u16>) -> (res: bool)
    ensures
        res == addressed_to(index, sender, receiver),
{
    sender != index && (receiver.is_none() || receiver == Some(index))
}

/// How many partial signatures of the other parties the online stage waits
/// for, with `number_of_parties` signers in all.
pub fn partial_signatures_awaited(number_of_parties: usize) -> (res: usize)
    requires
        number_of_parties >= 1,
    ensures
        res == number_of_parties - 1,
{
    number_of_parties - 1
}

/// A party never takes back a message it sent itself, whatever its receiver.
pub proof fn own_messages_are_dropped(index: u16, receiver: Option<u16>)
    ensures
        !addressed_to(index, index, receiver),
{
}

/// A broadcast from `sender` reaches exactly the parties other than `sender`.
pub proof fn broadcast_reaches_all_others(sender: u16, index: u16)
    ensures
        addressed_to(index, sender, None) <==> index != sender,
{
}

/// A message addressed to party `receiver` is taken by that party alone
/// (and by none if `receiver` sent it).
pub proof fn direct_message_reaches_only_its_receiver(sender: u16, receiver: u16, index: u16)
    ensures
        addressed_to(index, sender, Some(receiver)) <==> (index == receiver && sender != receiver),
{
}

} // verus!
