use vstd::prelude::*;
use vstd::string::StringExecFns;

use libp2p::Multiaddr;

use crate::decimal::{signed_decimal_digits, signed_decimal_text};

verus! {

/// The contents of a list of byte strings.
pub open spec fn byte_strings(list: Seq<Vec<u8>>) -> Seq<Seq<u8>> {
    list.map_values(|item: Vec<u8>| item@)
}

/// What the gossip node's event loop hands to `OutgoingQueue::handle`: an
/// event of the swarm (peers are given by the bytes of their id), or the
/// notification that outgoing messages are waiting.
#[derive(Clone, Debug, PartialEq, Eq)]
pub enum SwarmInput {
    /// Local discovery found these peers.
    PeersDiscovered(Vec<Vec<u8>>),
    /// Local discovery lost these peers.
    PeersExpired(Vec<Vec<u8>>),
    /// A gossip message arrived with this payload.
    GossipMessage(Vec<u8>),
    /// Any other swarm event.
    OtherEvent,
    /// The outgoing side was notified that messages are queued.
    OutgoingNotified,
}

/// The contents of a `SwarmInput`.
pub enum InputView {
    PeersDiscovered(Seq<Seq<u8>>),
    PeersExpired(Seq<Seq<u8>>),
    GossipMessage(Seq<u8>),
    OtherEvent,
    OutgoingNotified,
}

impl View for SwarmInput {
    type V = InputView;

    open spec fn view(&self) -> InputView {
        match self {
            SwarmInput::PeersDiscovered(peers) => InputView::PeersDiscovered(byte_strings(peers@)),
            SwarmInput::PeersExpired(peers) => InputView::PeersExpired(byte_strings(peers@)),
            SwarmInput::GossipMessage(data) => InputView::GossipMessage(data@),
            SwarmInput::OtherEvent => InputView::OtherEvent,
            SwarmInput::OutgoingNotified => InputView::OutgoingNotified,
        }
    }
}

/// What the event loop must do on the swarm after an input.
#[derive(Clone, Debug, PartialEq, Eq)]
pub enum NodeCommand {
    /// Add this peer to the explicit peers of gossipsub.
    AddExplicitPeer(Vec<u8>),
    /// Remove this peer from the explicit peers of gossipsub.
    RemoveExplicitPeer(Vec<u8>),
    /// Publish this payload on the topic `publish_topic()`.
    Publish(Vec<u8>),
}

/// The contents of a `NodeCommand`.
pub enum CommandView {
    AddExplicitPeer(Seq<u8>),
    RemoveExplicitPeer(Seq<u8>),
    Publish(Seq<u8>),
}

impl View for NodeCommand {
    type V = CommandView;

    open spec fn view(&self) -> CommandView {
        match self {
            NodeCommand::AddExplicitPeer(peer) => CommandView::AddExplicitPeer(peer@),
            NodeCommand::RemoveExplicitPeer(peer) => CommandView::RemoveExplicitPeer(peer@),
            NodeCommand::Publish(data) => CommandView::Publish(data@),
        }
    }
}

/// The outcome of one input: the commands for the swarm, in order, and what
/// the incoming stream yields (`None`: it yields nothing; `Some(None)`: an
/// event without payload; `Some(Some(data))`: a received payload).
#[derive(Clone, Debug, PartialEq, Eq)]
pub struct NodeStep {
    pub commands: Vec<NodeCommand>,
    pub yielded: Option<Option<Vec<u8>>>,
}

impl NodeStep {
    pub open spec fn commands_view(&self) -> Seq<CommandView> {
        self.commands@.map_values(|c: NodeCommand| c@)
    }

    pub open spec fn yielded_view(&self) -> Option<Option<Seq<u8>>> {
        match self.yielded {
            None => None,
            Some(None) => Some(None),
            Some(Some(data)) => Some(Some(data@)),
        }
    }
}

/// The commands for the swarm after `input`, with `pending` queued.
pub open spec fn step_commands(pending: Seq<Seq<u8>>, input: InputView) -> Seq<CommandView> {
    match input {
        InputView::PeersDiscovered(peers) => peers.map_values(
            |p: Seq<u8>| CommandView::AddExplicitPeer(p),
        ),
        InputView::PeersExpired(peers) => peers.map_values(
            |p: Seq<u8>| CommandView::RemoveExplicitPeer(p),
        ),
        InputView::GossipMessage(_) => Seq::empty(),
        InputView::OtherEvent => Seq::empty(),
        InputView::OutgoingNotified => pending.map_values(|m: Seq<u8>| CommandView::Publish(m)),
    }
}

/// The queue of outgoing messages after `input`, with `pending` queued.
pub open spec fn step_pending(pending: Seq<Seq<u8>>, input: InputView) -> Seq<Seq<u8>> {
    match input {
        InputView::OutgoingNotified => Seq::empty(),
        _ => pending,
    }
}

/// What the incoming stream yields after `input`.
pub open spec fn step_yield(input: InputView) -> Option<Option<Seq<u8>>> {
    match input {
        InputView::GossipMessage(data) => Some(Some(data)),
        InputView::OutgoingNotified => None,
        _ => Some(None),
    }
}

/// The topic on which queued messages are published.
pub open spec fn publish_topic_text() -> Seq<char> {
    seq!['t', 'e', 's', 't']
}

/// The topic on which the node publishes the messages of its outgoing queue.
pub fn publish_topic() -> (res: &'static str)
    ensures
        res@ == publish_topic_text(),
{
    let topic = "test";
    proof {
        reveal_strlit("test");
    }
    topic
}

/// The messages that the outgoing sink has taken and that the event loop has
/// not published yet.
pub struct OutgoingQueue {
    pending: Vec<Vec<u8>>,
}

impl View for OutgoingQueue {
    type V = Seq<Seq<u8>>;

    closed spec fn view(&self) -> Seq<Seq<u8>> {
        byte_strings(self.pending@)
    }
}

fn peer_commands(peers: &Vec<Vec<u8>>, add: bool) -> (res: Vec<NodeCommand>)
    ensures
        res@.map_values(|c: NodeCommand| c@) == (if add {
            byte_strings(peers@).map_values(|p: Seq<u8>| CommandView::AddExplicitPeer(p))
        } else {
            byte_strings(peers@).map_values(|p: Seq<u8>| CommandView::RemoveExplicitPeer(p))
        }),
{
    let mut res: Vec<NodeCommand> = Vec::new();
    let mut i: usize = 0;
    while i < peers.len()
        invariant
            i <= peers.len(),
            res@.len() == i,
            forall|k: int|
                0 <= k < i ==> (#[trigger] res@[k])@ == (if add {
                    CommandView::AddExplicitPeer(peers@[k]@)
                } else {
                    CommandView::RemoveExplicitPeer(peers@[k]@)
                }),
        decreases peers.len() - i,
    {
        let peer = peers[i].clone();
        assert(peer@ =~= peers@[i as int]@);
        if add {
            res.push(NodeCommand::AddExplicitPeer(peer));
        } else {
            res.push(NodeCommand::RemoveExplicitPeer(peer));
        }
        i = i + 1;
    }
    assert(res@.map_values(|c: NodeCommand| c@) =~= (if add {
        byte_strings(peers@).map_values(|p: Seq<u8>| CommandView::AddExplicitPeer(p))
    } else {
        byte_strings(peers@).map_values(|p: Seq<u8>| CommandView::RemoveExplicitPeer(p))
    }));
    res
}

impl OutgoingQueue {
    /// An empty queue.
    pub fn new() -> (res: OutgoingQueue)
        ensures
            res@ == Seq::<Seq<u8>>::empty(),
    {
        let res = OutgoingQueue { pending: Vec::new() };
        assert(res@ =~= Seq::<Seq<u8>>::empty());
        res
    }

    /// The outgoing sink takes a message: it is queued behind the others
    /// (the sink then wakes the event loop).
    pub fn enqueue(&mut self, message: Vec<u8>)
        ensures
            final(self)@ == old(self)@.push(message@),
    {
        self.pending.push(message);
        assert(self@ =~= old(self)@.push(message@));
    }

    /// Decides what the event loop does with one input: discovered peers
    /// become explicit peers, expired ones stop being so, a gossip message is
    /// yielded, and a notification publishes every queued message, in order,
    /// and empties the queue.
    pub fn handle(&mut self, input: SwarmInput) -> (res: NodeStep)
        ensures
            final(self)@ == step_pending(old(self)@, input@),
            res.commands_view() == step_commands(old(self)@, input@),
            res.yielded_view() == step_yield(input@),
    {
        match input {
            SwarmInput::PeersDiscovered(peers) => {
                let commands = peer_commands(&peers, true);
                NodeStep { commands, yielded: Some(None) }
            },
            SwarmInput::PeersExpired(peers) => {
                let commands = peer_commands(&peers, false);
                NodeStep { commands, yielded: Some(None) }
            },
            SwarmInput::GossipMessage(data) => {
                let res = NodeStep { commands: Vec::new(), yielded: Some(Some(data)) };
                assert(res.commands_view() =~= Seq::<CommandView>::empty());
                res
            },
            SwarmInput::OtherEvent => {
                let res = NodeStep { commands: Vec::new(), yielded: Some(None) };
                assert(res.commands_view() =~= Seq::<CommandView>::empty());
                res
            },
            SwarmInput::OutgoingNotified => {
                let mut queued: Vec<Vec<u8>> = Vec::new();
                std::mem::swap(&mut queued, &mut self.pending);
                let mut commands: Vec<NodeCommand> = Vec::new();
                let mut i: usize = 0;
                while i < queued.len()
                    invariant
                        i <= queued.len(),
                        commands@.len() == i,
                        forall|k: int|
                            0 <= k < i ==> (#[trigger] commands@[k])@ == CommandView::Publish(
                                queued@[k]@,
                            ),
                    decreases queued.len() - i,
                {
                    let message = queued[i].clone();
                    assert(message@ =~= queued@[i as int]@);
                    commands.push(NodeCommand::Publish(message));
                    i = i + 1;
                }
                let res = NodeStep { commands, yielded: None };
                assert(res.commands_view() =~= byte_strings(queued@).map_values(
                    |m: Seq<u8>| CommandView::Publish(m),
                ));
                assert(self@ =~= Seq::<Seq<u8>>::empty());
                res
            },
        }
    }
}

/// A network event never publishes anything and leaves the outgoing queue as
/// it is.
pub proof fn network_events_keep_queue(pending: Seq<Seq<u8>>, input: InputView)
    requires
        !(input is OutgoingNotified),
    ensures
        step_pending(pending, input) == pending,
        forall|i: int|
            0 <= i < step_commands(pending, input).len() ==> !(#[trigger] step_commands(
                pending,
                input,
            )[i] is Publish),
{
}

/// A notification publishes every queued message exactly once, in the order
/// in which the sink took them: nothing is left for a second notification.
pub proof fn notification_publishes_each_once(pending: Seq<Seq<u8>>)
    ensures
        step_commands(pending, InputView::OutgoingNotified).len() == pending.len(),
        forall|i: int|
            0 <= i < pending.len() ==> step_commands(pending, InputView::OutgoingNotified)[i]
                == CommandView::Publish(#[trigger] pending[i]),
        step_pending(pending, InputView::OutgoingNotified) == Seq::<Seq<u8>>::empty(),
        step_commands(
            step_pending(pending, InputView::OutgoingNotified),
            InputView::OutgoingNotified,
        ).len() == 0,
{
}

/// A message that the sink takes is published at the next notification,
/// after every message queued before it.
pub proof fn enqueued_message_published_after_earlier_ones(pending: Seq<Seq<u8>>, message: Seq<u8>)
    ensures
        step_commands(pending.push(message), InputView::OutgoingNotified).len() == pending.len() + 1,
        step_commands(pending.push(message), InputView::OutgoingNotified)[pending.len() as int]
            == CommandView::Publish(message),
        forall|i: int|
            0 <= i < pending.len() ==> step_commands(
                pending.push(message),
                InputView::OutgoingNotified,
            )[i] == CommandView::Publish(#[trigger] pending[i]),
{
    assert(pending.push(message)[pending.len() as int] == message);
    assert forall|i: int| 0 <= i < pending.len() implies step_commands(
        pending.push(message),
        InputView::OutgoingNotified,
    )[i] == CommandView::Publish(#[trigger] pending[i]) by {
        assert(pending.push(message)[i] == pending[i]);
    }
}

/// A gossip message hands its whole payload to the incoming stream, whatever
/// its length, asks nothing of the swarm and leaves the queue as it is.
pub proof fn gossip_message_yields_its_payload(pending: Seq<Seq<u8>>, data: Seq<u8>)
    ensures
        step_yield(InputView::GossipMessage(data)) == Some(Some(data)),
        step_commands(pending, InputView::GossipMessage(data)).len() == 0,
        step_pending(pending, InputView::GossipMessage(data)) == pending,
{
}

/// Every discovered peer, and no other, becomes an explicit peer, in the
/// order of discovery; the stream yields an event without payload.
pub proof fn discovered_peers_become_explicit(pending: Seq<Seq<u8>>, peers: Seq<Seq<u8>>)
    ensures
        step_commands(pending, InputView::PeersDiscovered(peers)).len() == peers.len(),
        forall|i: int|
            0 <= i < peers.len() ==> step_commands(pending, InputView::PeersDiscovered(peers))[i]
                == CommandView::AddExplicitPeer(#[trigger] peers[i]),
        step_yield(InputView::PeersDiscovered(peers)) == Some(None::<Seq<u8>>),
        step_pending(pending, InputView::PeersDiscovered(peers)) == pending,
{
}

/// Every expired peer, and no other, stops being an explicit peer, in the
/// order given; the stream yields an event without payload.
pub proof fn expired_peers_stop_being_explicit(pending: Seq<Seq<u8>>, peers: Seq<Seq<u8>>)
    ensures
        step_commands(pending, InputView::PeersExpired(peers)).len() == peers.len(),
        forall|i: int|
            0 <= i < peers.len() ==> step_commands(pending, InputView::PeersExpired(peers))[i]
                == CommandView::RemoveExplicitPeer(#[trigger] peers[i]),
        step_yield(InputView::PeersExpired(peers)) == Some(None::<Seq<u8>>),
        step_pending(pending, InputView::PeersExpired(peers)) == pending,
{
}

/// Any other swarm event asks nothing of the swarm and yields an event
/// without payload; a notification yields nothing.
pub proof fn other_inputs_yield(pending: Seq<Seq<u8>>)
    ensures
        step_commands(pending, InputView::OtherEvent).len() == 0,
        step_yield(InputView::OtherEvent) == Some(None::<Seq<u8>>),
        step_yield(InputView::OutgoingNotified) == None::<Option<Seq<u8>>>,
{
}

#[verifier::external_type_specification]
#[verifier::external_body]
pub struct ExMultiaddr(Multiaddr);

#[verifier::external_type_specification]
#[verifier::external_body]
pub struct ExMultiaddrError(libp2p::multiaddr::Error);

/// The address text on which the node listens for the given port:
/// `/ip4/0.0.0.0/tcp/` followed by the port in decimal.
pub open spec fn listen_address_text(port: int) -> Seq<char> {
    seq!['/', 'i', 'p', '4', '/', '0', '.', '0', '.', '0', '.', '0', '/', 't', 'c', 'p', '/']
        + signed_decimal_digits(port)
}

/// The node listens on every IPv4 interface: the address is
/// `/ip4/0.0.0.0/tcp/` followed by the decimal text of the port.
pub proof fn listen_address_is_all_interfaces(port: int)
    ensures
        listen_address_text(port) == seq![
            '/',
            'i',
            'p',
            '4',
            '/',
            '0',
            '.',
            '0',
            '.',
            '0',
            '.',
            '0',
            '/',
            't',
            'c',
            'p',
            '/',
        ] + signed_decimal_digits(port),
{
}

/// The multiaddress that `Multiaddr::from_str` reads from a text it accepts.
pub uninterp spec fn multiaddr_of(text: Seq<char>) -> Multiaddr;

/// Parses a multiaddress with `Multiaddr::from_str`. Claimed: what it returns
/// depends on the text alone (`multiaddr_of`). Claimed of the texts
/// `listen_address_text(port)`: they parse exactly when the port is a 16-bit
/// number (the `tcp` part is read by `u16::from_str`, and `0.0.0.0` is a
/// valid IPv4 address). Nothing is claimed of other texts.
#[verifier::external_body]
fn parse_multiaddr(text: &str) -> (res: Result<Multiaddr, libp2p::multiaddr::Error>)
    ensures
        res matches Ok(address) ==> address == multiaddr_of(text@),
        forall|port: int|
            #[trigger] listen_address_text(port) == text@ ==> (res is Ok <==> 0 <= port <= 65535),
{
    <Multiaddr as std::str::FromStr>::from_str(text)
}

/// Why the node could not start listening.
#[derive(Debug, PartialEq, Eq)]
pub enum PubsubError {
    /// The port does not make a valid TCP address.
    InvalidListenAddress,
}

/// The address text on which the node listens for `port`.
pub fn listen_address(port: i32) -> (res: String)
    ensures
        res@ == listen_address_text(port as int),
{
    let mut out = String::from_str("/ip4/0.0.0.0/tcp/");
    proof {
        reveal_strlit("/ip4/0.0.0.0/tcp/");
    }
    let digits = signed_decimal_text(port);
    out.append(digits.as_str());
    assert(out@ =~= listen_address_text(port as int));
    out
}

/// The multiaddress on which `start` makes the node listen; refused unless
/// the port is a 16-bit number.
pub fn listen_multiaddr(port: i32) -> (res: Result<Multiaddr, PubsubError>)
    ensures
        res is Ok <==> 0 <= port <= 65535,
        res matches Ok(address) ==> address == multiaddr_of(listen_address_text(port as int)),
        res matches Err(e) ==> e == PubsubError::InvalidListenAddress,
{
    let text = listen_address(port);
    match parse_multiaddr(text.as_str()) {
        Ok(address) => Ok(address),
        Err(_) => Err(PubsubError::InvalidListenAddress),
    }
}

} // verus!
