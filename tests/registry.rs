use signalr_client::registry::{Dispatch, EntryKind};
use signalr_client::{MessageType, Registry};

#[test]
fn invocation_ids_carry_an_increasing_counter() {
    let mut reg: Registry<u32> = Registry::new();
    let target = "SingleEntity".to_string();
    assert_eq!(reg.create_key(&target), "SingleEntity_0");
    assert_eq!(reg.create_key(&target), "SingleEntity_1");
    assert_eq!(reg.create_key(&"PushEntity".to_string()), "PushEntity_2");
    for _ in 0..7 {
        reg.create_key(&target);
    }
    assert_eq!(reg.create_key(&target), "SingleEntity_10");
}

#[test]
fn completion_removes_a_single_invocation_once() {
    let mut reg: Registry<u32> = Registry::new();
    let id = reg.create_key(&"SingleEntity".to_string());
    reg.add_invocation(id.clone(), 11);
    assert!(reg.contains(&id));
    match reg.process_message(MessageType::Completion, Some(id.clone())) {
        Dispatch::Completed(EntryKind::Single, h) => assert_eq!(h, 11),
        _ => panic!("expected the completion to be delivered"),
    }
    assert!(!reg.contains(&id));
    assert!(matches!(reg.process_message(MessageType::Completion, Some(id.clone())), Dispatch::Ignored));
}

#[test]
fn callback_fires_for_each_invocation_of_its_target() {
    let mut reg: Registry<u32> = Registry::new();
    reg.add_callback("callback1".to_string(), 5);
    let mut fired = 0;
    for _ in 0..3 {
        match reg.process_message(MessageType::Invocation, Some("callback1".to_string())) {
            Dispatch::Invoke(i) => {
                assert_eq!(*reg.handle(i), 5);
                fired += 1;
            }
            _ => panic!("expected the callback to run"),
        }
    }
    assert!(matches!(reg.process_message(MessageType::Invocation, Some("other".to_string())), Dispatch::Ignored));
    assert!(matches!(reg.process_message(MessageType::Completion, Some("callback1".to_string())), Dispatch::Ignored));
    assert_eq!(fired, 3);
    assert!(reg.contains(&"callback1".to_string()));
}

#[test]
fn stream_items_go_to_their_stream_until_completion() {
    let mut reg: Registry<u32> = Registry::new();
    let id = reg.create_key(&"HundredEntities".to_string());
    reg.add_stream(id.clone(), 8);
    for _ in 0..100 {
        assert!(matches!(reg.process_message(MessageType::StreamItem, Some(id.clone())), Dispatch::Push(_)));
    }
    assert!(matches!(
        reg.process_message(MessageType::Completion, Some(id.clone())),
        Dispatch::Completed(EntryKind::Stream, 8)
    ));
    assert!(matches!(reg.process_message(MessageType::StreamItem, Some(id)), Dispatch::Ignored));
}

#[test]
fn close_ping_and_unknown_ids() {
    let mut reg: Registry<u32> = Registry::new();
    assert!(matches!(reg.process_message(MessageType::Close, None), Dispatch::Closed));
    assert!(matches!(reg.process_message(MessageType::Ping, None), Dispatch::Ignored));
    assert!(matches!(reg.process_message(MessageType::Completion, Some("nope_1".to_string())), Dispatch::Ignored));
}

#[test]
fn adding_a_callback_again_replaces_it() {
    let mut reg: Registry<u32> = Registry::new();
    reg.add_callback("cb".to_string(), 1);
    reg.add_callback("cb".to_string(), 2);
    match reg.process_message(MessageType::Invocation, Some("cb".to_string())) {
        Dispatch::Invoke(i) => assert_eq!(*reg.handle(i), 2),
        _ => panic!("expected the callback to run"),
    }
    assert_eq!(reg.remove(&"cb".to_string()), Some(2));
    assert_eq!(reg.remove(&"cb".to_string()), None);
}

#[test]
fn cancel_pending_keeps_callbacks() {
    let mut reg: Registry<u32> = Registry::new();
    reg.add_callback("cb".to_string(), 1);
    reg.add_invocation("a_0".to_string(), 2);
    reg.add_stream("b_1".to_string(), 3);
    reg.add_invocation("c_2".to_string(), 4);
    let mut cancelled = reg.cancel_pending();
    cancelled.sort();
    assert_eq!(cancelled, vec![2, 3, 4]);
    assert!(reg.contains(&"cb".to_string()));
    assert!(!reg.contains(&"a_0".to_string()));
    assert!(!reg.contains(&"b_1".to_string()));
}
