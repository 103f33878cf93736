use kernel::ipc::endpoint::{Endpoint, MAX_MESSAGE_SIZE};
use kernel::ipc::message::{Message, MessageHeader, PAYLOAD_SIZE, VFS_READ};
use kernel::ipc::{
    create_endpoint, destroy_endpoint, ipc_call, ipc_call_finish, ipc_reply, ipc_wait,
    is_direct_switch_enabled, set_direct_switch_enabled, EndpointId, IpcError, IpcState,
    SchedAction, ThreadId, WaitOutcome,
};

#[test]
fn endpoints_get_increasing_ids() {
    let mut s = IpcState::new();
    assert_eq!(create_endpoint(&mut s), EndpointId(1));
    assert_eq!(create_endpoint(&mut s), EndpointId(2));
    destroy_endpoint(&mut s, EndpointId(1));
    assert!(!s.endpoints.contains_key(&1));
    assert!(s.endpoints.contains_key(&2));
}

#[test]
fn call_wait_reply_round_trip() {
    let mut s = IpcState::new();
    let ep = create_endpoint(&mut s);
    let client = ThreadId(7);
    let server = ThreadId(9);
    let mut buf = [0u8; 16];
    // server waits first: nothing pending, it blocks as the receiver
    assert_eq!(ipc_wait(&mut s, Some(server), ep, &mut buf), Ok(WaitOutcome::Blocked));
    // client calls: switch straight to the waiting server
    assert_eq!(ipc_call(&mut s, Some(client), ep, b"hello"), Ok(SchedAction::DirectSwitch(server)));
    // server wakes and receives
    assert_eq!(ipc_wait(&mut s, Some(server), ep, &mut buf), Ok(WaitOutcome::Received(5, client)));
    assert_eq!(&buf[..5], b"hello");
    // server replies: switch straight back to the caller
    assert_eq!(ipc_reply(&mut s, ep, client, b"world!"), Ok(SchedAction::DirectSwitch(client)));
    let mut reply = [0u8; 4];
    // the reply is cut to the buffer
    assert_eq!(ipc_call_finish(&mut s, client, ep, &mut reply), Ok(4));
    assert_eq!(&reply, b"worl");
    assert!(!s.waiting_for_reply.contains_key(&7));
}

#[test]
fn call_without_receiver_blocks_and_indirect_switching() {
    let mut s = IpcState::new();
    let ep = create_endpoint(&mut s);
    assert_eq!(ipc_call(&mut s, Some(ThreadId(1)), ep, b"x"), Ok(SchedAction::Block));
    assert_eq!(s.waiting_for_reply.get(&1), Some(&ep.0));
    set_direct_switch_enabled(&mut s, false);
    assert!(!is_direct_switch_enabled(&s));
    let mut buf = [0u8; 1];
    assert_eq!(ipc_wait(&mut s, Some(ThreadId(2)), ep, &mut buf), Ok(WaitOutcome::Received(1, ThreadId(1))));
    assert_eq!(ipc_wait(&mut s, Some(ThreadId(2)), ep, &mut buf), Ok(WaitOutcome::Blocked));
    assert_eq!(ipc_call(&mut s, Some(ThreadId(1)), ep, b"y"), Ok(SchedAction::UnblockAndBlock(ThreadId(2))));
    assert_eq!(ipc_reply(&mut s, ep, ThreadId(1), b"ok"), Ok(SchedAction::Unblock(ThreadId(1))));
}

#[test]
fn ipc_errors() {
    let mut s = IpcState::new();
    let ep = create_endpoint(&mut s);
    let mut buf = [0u8; 4];
    assert_eq!(ipc_call(&mut s, None, ep, b"x"), Err(IpcError::InvalidThread));
    assert_eq!(ipc_call(&mut s, Some(ThreadId(1)), EndpointId(99), b"x"), Err(IpcError::InvalidEndpoint));
    let big = vec![0u8; MAX_MESSAGE_SIZE + 1];
    assert_eq!(ipc_call(&mut s, Some(ThreadId(1)), ep, &big), Err(IpcError::MessageTooLarge));
    assert_eq!(ipc_reply(&mut s, ep, ThreadId(1), &big), Err(IpcError::MessageTooLarge));
    assert_eq!(ipc_reply(&mut s, EndpointId(99), ThreadId(1), b""), Err(IpcError::InvalidEndpoint));
    assert_eq!(ipc_wait(&mut s, None, ep, &mut buf), Err(IpcError::InvalidThread));
    assert_eq!(ipc_wait(&mut s, Some(ThreadId(1)), EndpointId(99), &mut buf), Err(IpcError::InvalidEndpoint));
    assert_eq!(ipc_call_finish(&mut s, ThreadId(1), EndpointId(99), &mut buf), Err(IpcError::InvalidEndpoint));
    s.endpoints.get_mut(&ep.0).unwrap().close();
    assert_eq!(ipc_call(&mut s, Some(ThreadId(1)), ep, b"x"), Err(IpcError::EndpointClosed));
}

#[test]
fn endpoint_message_and_reply() {
    let mut e = Endpoint::new(EndpointId(3));
    assert_eq!(e.take_message(), None);
    assert_eq!(e.set_message(b"abc", ThreadId(4)), Ok(()));
    assert_eq!(e.take_message(), Some((b"abc".to_vec(), ThreadId(4))));
    assert_eq!(e.take_message(), None);
    e.set_waiting_receiver(ThreadId(5));
    assert_eq!(e.take_waiting_receiver(), Some(ThreadId(5)));
    assert_eq!(e.take_waiting_receiver(), None);
    assert_eq!(e.set_reply(b"rep"), Ok(()));
    let mut buf = [9u8; 5];
    assert_eq!(e.get_reply(&mut buf), Ok(3));
    assert_eq!(buf, [b'r', b'e', b'p', 9, 9]);
    e.close();
    assert!(e.is_closed());
    assert_eq!(e.set_message(b"z", ThreadId(4)), Err(IpcError::EndpointClosed));
}

#[test]
fn message_payload() {
    let h = MessageHeader::new(VFS_READ, 3);
    assert_eq!(h.msg_type, VFS_READ);
    assert_eq!(h.length, 3);
    let m = Message::with_payload(VFS_READ, b"abc");
    assert_eq!(m.payload_slice(), b"abc");
    let mut m = Message::new();
    assert_eq!(m.payload_slice(), b"");
    let big = vec![1u8; PAYLOAD_SIZE + 10];
    m.set_payload(&big);
    assert_eq!(m.payload_slice().len(), PAYLOAD_SIZE);
}
