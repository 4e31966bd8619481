use futures::channel::mpsc::TryRecvError;
use px_mpc_module::channel::dispatch_outcome;
use px_mpc_module::{create_channel, dispatch_incoming, DispatchError};

#[test]
fn dispatched_message_reaches_handed_off_receiver() {
    let mut channel = create_channel();
    assert_eq!(dispatch_incoming(&channel, "first".to_string()), Ok(()));
    let mut receiver = channel.hand_off_receiver();
    assert_eq!(receiver.try_recv(), Ok("first".to_string()));
    assert_eq!(dispatch_incoming(&channel, "second".to_string()), Ok(()));
    assert_eq!(receiver.try_recv(), Ok("second".to_string()));
}

#[test]
fn fresh_receiver_after_hand_off_gets_nothing() {
    let mut channel = create_channel();
    let _computation = channel.hand_off_receiver();
    assert_eq!(dispatch_incoming(&channel, "m".to_string()), Ok(()));
    let mut fresh = channel.hand_off_receiver();
    assert_eq!(fresh.try_recv(), Err(TryRecvError::Closed));
}

#[test]
fn refused_when_receiver_is_gone() {
    let mut channel = create_channel();
    drop(channel.hand_off_receiver());
    assert_eq!(
        dispatch_incoming(&channel, "lost".to_string()),
        Err(DispatchError::Rejected("lost".to_string()))
    );
}

#[test]
fn dispatch_does_not_refuse_when_buffer_is_full() {
    let mut channel = create_channel();
    for i in 0..120 {
        assert_eq!(dispatch_incoming(&channel, format!("{}", i)), Ok(()));
    }
    let mut receiver = channel.hand_off_receiver();
    for i in 0..120 {
        assert_eq!(receiver.try_recv(), Ok(format!("{}", i)));
    }
}

#[test]
fn dispatch_outcome_maps_each_case() {
    assert_eq!(dispatch_outcome(Ok(())), Ok(()));
    assert_eq!(
        dispatch_outcome(Err("back".to_string())),
        Err(DispatchError::Rejected("back".to_string()))
    );
}

#[test]
fn channels_do_not_share_messages() {
    let mut first = create_channel();
    let mut second = create_channel();
    assert_eq!(dispatch_incoming(&first, "to first".to_string()), Ok(()));
    let mut first_rx = first.hand_off_receiver();
    let mut second_rx = second.hand_off_receiver();
    assert_eq!(first_rx.try_recv(), Ok("to first".to_string()));
    assert_eq!(second_rx.try_recv(), Err(TryRecvError::Empty));
}
