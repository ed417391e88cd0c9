use signalr_client::completer::{PollResult, StreamPoll, StreamState};
use signalr_client::{CompletedFuture, State};

#[test]
fn one_shot_delivers_to_a_waiting_consumer() {
    let mut s: State<u32, &str> = State::new(None);
    assert!(!s.is_completed());
    assert!(matches!(s.poll("cue"), PollResult::Pending));
    assert_eq!(s.complete(7), Some("cue"));
    assert!(s.is_completed());
    assert!(matches!(s.poll("cue2"), PollResult::Ready(7)));
    assert!(matches!(s.poll("cue3"), PollResult::Cancelled));
}

#[test]
fn one_shot_cancel() {
    let mut s: State<u32, &str> = State::new(None);
    assert_eq!(s.cancel(), None);
    assert!(s.is_completed());
    assert!(matches!(s.poll("c"), PollResult::Cancelled));
}

#[test]
fn completed_future_gives_its_value_once() {
    let mut f = CompletedFuture::new(5);
    assert!(f.is_completed());
    assert_eq!(f.take(), Some(5));
    assert_eq!(f.take(), None);
}

#[test]
fn stream_delivers_in_order_then_ends() {
    let mut s: StreamState<u32, u8> = StreamState::new();
    assert!(matches!(s.poll_next(1), StreamPoll::Pending));
    assert_eq!(s.push(10), Some(1));
    s.push(20);
    s.close();
    s.push(30);
    assert!(matches!(s.poll_next(2), StreamPoll::Item(10)));
    assert!(matches!(s.poll_next(2), StreamPoll::Item(20)));
    assert!(matches!(s.poll_next(2), StreamPoll::Ended));
}
