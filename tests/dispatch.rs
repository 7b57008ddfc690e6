use dobot::communicator::{
    check_ack, check_retry, Action, CommunicateStatus, Communicator, Control, MAX_MESSAGES,
    MAX_RETRIES,
};
use dobot::framing::FrameReader;
use dobot::message::{Message, PARAMS_SIZE};
use dobot::packet::{Packet, MAX_PACKET_SIZE};
use dobot::queue_index::{acknowledged, current_index_of, queued_index_of, QueueIndex};

fn message_with(id: u8, is_queued: u8, params: &[u8]) -> Message {
    let mut p = [0u8; PARAMS_SIZE];
    p[..params.len()].copy_from_slice(params);
    Message { id, rw: 1, is_queued, params_len: params.len() as u8, params: p }
}

/// Serves one entry, sending each message through `transport`, which
/// answers with what comes back within the wait time.
fn serve_one<F: FnMut(&Message) -> Option<Message>>(
    c: &mut Communicator<u32>,
    transport: &mut F,
    sent: &mut Vec<Message>,
) -> Option<(u32, CommunicateStatus)> {
    let mut action = c.start_next();
    loop {
        match action {
            Action::Idle => return None,
            Action::Send(m) => {
                sent.push(m);
                let reply = transport(&m);
                action = c.on_reply(reply);
            }
            Action::Complete(h, st) => return Some((h, st)),
        }
    }
}

/// A device that answers every request, over the wire format.
fn echo_device(m: &Message) -> Option<Message> {
    let mut reply = *m;
    reply.params_len = 8;
    reply.params[..8].copy_from_slice(&(m.id as u64 + 1000).to_le_bytes());
    let mut buf = [0u8; MAX_PACKET_SIZE];
    let n = Packet::from_message(&reply).to_bytes(&mut buf).unwrap();
    let mut reader = FrameReader::new();
    reader.push_bytes(&buf[..n]);
    reader.next_packet().map(|p| p.to_message())
}

#[test]
fn completions_follow_submission_order() {
    let mut c: Communicator<u32> = Communicator::new(None);
    assert!(c.insert_message(&message_with(10, 0, &[]), 1).is_ok());
    assert!(c.insert_message(&message_with(84, 1, &[1, 2]), 2).is_ok());
    assert!(c.insert_message(&message_with(62, 0, &[1, 0]), 3).is_ok());
    let mut sent = Vec::new();
    let mut order = Vec::new();
    while let Some((h, st)) = serve_one(&mut c, &mut echo_device, &mut sent) {
        assert!(matches!(st, CommunicateStatus::NoError(_)));
        order.push(h);
    }
    assert_eq!(order, vec![1, 2, 3]);
    let ids: Vec<u8> = sent.iter().map(|m| m.id).collect();
    assert_eq!(ids, vec![10, 247, 84, 62]);
    assert!(c.is_idle());
}

#[test]
fn excess_submissions_get_buffer_full() {
    let mut c: Communicator<u32> = Communicator::new(None);
    let mut refused = Vec::new();
    for i in 0..200u32 {
        if let Err(h) = c.insert_message(&message_with(5, 0, &[]), i) {
            refused.push(h);
        }
    }
    assert_eq!(refused, (MAX_MESSAGES as u32 + 1..200).collect::<Vec<u32>>());
    let mut sent = Vec::new();
    let mut served = Vec::new();
    while let Some((h, _)) = serve_one(&mut c, &mut echo_device, &mut sent) {
        served.push(h);
    }
    assert_eq!(served, (0..MAX_MESSAGES as u32 + 1).collect::<Vec<u32>>());
    assert_eq!(sent.len(), MAX_MESSAGES + 1);
}

#[test]
fn retry_then_success() {
    let mut c: Communicator<u32> = Communicator::new(None);
    c.insert_message(&message_with(84, 0, &[4]), 7).unwrap();
    let mut calls = 0;
    let mut flaky = |m: &Message| {
        calls += 1;
        if calls <= 2 { None } else { echo_device(m) }
    };
    let mut sent = Vec::new();
    let (h, st) = serve_one(&mut c, &mut flaky, &mut sent).unwrap();
    assert_eq!(h, 7);
    assert_eq!(sent.len(), 3);
    match st {
        CommunicateStatus::NoError(reply) => {
            assert_eq!(reply.id, 84);
            assert_eq!(u64::from_le_bytes(reply.params[..8].try_into().unwrap()), 1084);
        }
        other => panic!("unexpected {:?}", other),
    }
}

#[test]
fn stray_reply_is_retried() {
    let mut c: Communicator<u32> = Communicator::new(None);
    c.insert_message(&message_with(84, 0, &[]), 1).unwrap();
    let mut calls = 0;
    let mut stray = |m: &Message| {
        calls += 1;
        if calls == 1 { echo_device(&message_with(10, 0, &[])) } else { echo_device(m) }
    };
    let mut sent = Vec::new();
    let (_, st) = serve_one(&mut c, &mut stray, &mut sent).unwrap();
    assert_eq!(sent.len(), 2);
    assert!(matches!(st, CommunicateStatus::NoError(r) if r.id == 84));
}

#[test]
fn silence_times_out_after_four_sends() {
    let mut c: Communicator<u32> = Communicator::new(None);
    c.insert_message(&message_with(84, 0, &[]), 1).unwrap();
    let mut sent = Vec::new();
    let (_, st) = serve_one(&mut c, &mut |_: &Message| None, &mut sent).unwrap();
    assert!(matches!(st, CommunicateStatus::Timeout));
    assert_eq!(sent.len(), MAX_RETRIES as usize + 1);
    assert_eq!(sent.len(), 4);
    assert!(sent.iter().all(|m| m.id == 84));
}

#[test]
fn silent_probe_keeps_queued_command_unsent() {
    let mut c: Communicator<u32> = Communicator::new(None);
    c.insert_message(&message_with(84, 1, &[]), 1).unwrap();
    c.insert_message(&message_with(62, 0, &[]), 2).unwrap();
    let mut sent = Vec::new();
    let (h, st) = serve_one(&mut c, &mut |_: &Message| None, &mut sent).unwrap();
    assert_eq!(h, 1);
    assert!(matches!(st, CommunicateStatus::Timeout));
    assert_eq!(sent.len(), 4);
    assert!(sent.iter().all(|m| m.id == 247 && m.is_queued == 0));
    let (h, st) = serve_one(&mut c, &mut echo_device, &mut sent).unwrap();
    assert_eq!(h, 2);
    assert!(matches!(st, CommunicateStatus::NoError(_)));
}

#[test]
fn idle_when_nothing_queued() {
    let mut c: Communicator<u32> = Communicator::new(Some(20));
    assert_eq!(c.wait_time(), 20);
    assert!(matches!(c.start_next(), Action::Idle));
    assert_eq!(Communicator::<u32>::new(None).wait_time(), 500);
}

#[test]
fn ack_classification() {
    assert!(matches!(check_ack(None, 3), Err(Control::Retry)));
    assert!(matches!(check_ack(Some(message_with(4, 0, &[])), 3), Err(Control::Retry)));
    assert!(matches!(check_ack(Some(message_with(3, 0, &[])), 3), Ok(m) if m.id == 3));
    assert!(check_retry::<Message>(&Err(Control::Retry)));
    assert!(!check_retry::<Message>(&Err(Control::Abort)));
    assert!(!check_retry(&Ok(1u8)));
}

#[test]
fn queued_reply_gives_index() {
    let request = message_with(84, 1, &[]);
    let ack = message_with(84, 1, &[0x2A, 0x01, 0, 0, 0, 0, 0, 0]);
    let r = queued_index_of(&request, CommunicateStatus::NoError(ack));
    assert_eq!(r.unwrap(), Some(QueueIndex(0x012A)));
    let r = queued_index_of(&message_with(84, 0, &[]), CommunicateStatus::NoError(ack));
    assert_eq!(r.unwrap(), None);
    assert!(matches!(queued_index_of(&request, CommunicateStatus::Timeout), Err(CommunicateStatus::Timeout)));
    assert!(matches!(queued_index_of(&request, CommunicateStatus::BufferFull), Err(CommunicateStatus::BufferFull)));
}

#[test]
fn current_index_reply() {
    let ack = message_with(246, 0, &[7, 0, 0, 0, 0, 0, 0, 1]);
    assert_eq!(current_index_of(CommunicateStatus::NoError(ack)).unwrap(), QueueIndex(0x0100_0000_0000_0007));
    assert!(matches!(current_index_of(CommunicateStatus::InvalidParams), Err(CommunicateStatus::InvalidParams)));
    assert!(acknowledged(CommunicateStatus::NoError(ack)).is_ok());
    assert!(acknowledged(CommunicateStatus::Timeout).is_err());
}

#[test]
fn queued_retry_then_success() {
    let mut c: Communicator<u32> = Communicator::new(None);
    c.insert_message(&message_with(84, 1, &[2]), 9).unwrap();
    let mut calls = 0;
    let mut flaky = |m: &Message| {
        calls += 1;
        if calls == 1 || calls == 3 { None } else { echo_device(m) }
    };
    let mut sent = Vec::new();
    let (h, st) = serve_one(&mut c, &mut flaky, &mut sent).unwrap();
    assert_eq!(h, 9);
    let ids: Vec<u8> = sent.iter().map(|m| m.id).collect();
    assert_eq!(ids, vec![247, 247, 84, 84]);
    assert!(matches!(st, CommunicateStatus::NoError(r) if r.id == 84));
}

#[test]
fn batch_submission_refuses_excess() {
    let mut c: Communicator<u32> = Communicator::new(None);
    let items: Vec<(Message, u32)> = (0..140u32).map(|i| (message_with(5, 0, &[]), i)).collect();
    let refused = c.insert_messages(items);
    assert_eq!(refused, (MAX_MESSAGES as u32 + 1..140).collect::<Vec<u32>>());
    let mut sent = Vec::new();
    let mut served = Vec::new();
    while let Some((h, _)) = serve_one(&mut c, &mut echo_device, &mut sent) {
        served.push(h);
    }
    assert_eq!(served, (0..MAX_MESSAGES as u32 + 1).collect::<Vec<u32>>());
}
