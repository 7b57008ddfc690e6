use dobot::framing::FrameReader;
use dobot::message::{FromParams, Message, ParamBytes, ReadWrite, ToParams, PARAMS_SIZE};
use dobot::packet::{Packet, MAX_PACKET_SIZE, SYNC_BYTE};
use dobot::protocol_id::ProtocolID;
use dobot::types::{EndEffectorSuctionCapParams, EndEffectorSuctionCapState, HHTTrigMode};

fn message_with(id: u8, rw: u8, is_queued: u8, params: &[u8]) -> Message {
    let mut p = [0u8; PARAMS_SIZE];
    p[..params.len()].copy_from_slice(params);
    Message { id, rw, is_queued, params_len: params.len() as u8, params: p }
}

fn encode(m: &Message) -> Vec<u8> {
    let mut buf = [0u8; MAX_PACKET_SIZE];
    let n = Packet::from_message(m).to_bytes(&mut buf).unwrap();
    buf[..n].to_vec()
}

fn ptp_params() -> Vec<u8> {
    let mut v = vec![0x00u8];
    for f in [300.0f32, -9.1f32, -70.3f32, -1.7f32] {
        v.extend_from_slice(&f.to_le_bytes());
    }
    v
}

#[test]
fn ptp_cmd_example_frame() {
    let params = ptp_params();
    assert_eq!(params.len(), 17);
    assert_eq!(ProtocolID::ProtocolPTPCmd.code(), 84);
    let m = message_with(ProtocolID::ProtocolPTPCmd.code(), 0, 0, &params);
    let p = Packet::from_message(&m);
    assert_eq!(p.header.payload_len, 19);
    assert_eq!(p.payload.ctrl, 0x00);
    let sum: u32 = 84 + 0 + params.iter().map(|b| *b as u32).sum::<u32>();
    let expected = ((256 - (sum % 256)) % 256) as u8;
    assert_eq!(p.checksum, expected);
    let bytes = encode(&m);
    assert_eq!(bytes.len(), 23);
    assert_eq!(&bytes[0..5], &[0xAA, 0xAA, 19, 84, 0x00]);
    assert_eq!(&bytes[5..22], &params[..]);
    assert_eq!(bytes[22], expected);
}

#[test]
fn ptp_cmd_write_sets_ctrl_bit() {
    let block = ParamBytes::from_slice(&ptp_params()).unwrap();
    let m = Message::new(ProtocolID::ProtocolPTPCmd, ReadWrite::Write, false, &Some(block));
    let p = Packet::from_message(&m);
    assert_eq!(p.header.payload_len, 19);
    assert_eq!(p.payload.ctrl, 0x01);
    let sum: u32 = 84 + 1 + ptp_params().iter().map(|b| *b as u32).sum::<u32>();
    assert_eq!(p.checksum, ((256 - (sum % 256)) % 256) as u8);
    let queued = Message::new(ProtocolID::ProtocolPTPCmd, ReadWrite::Write, true, &Some(block));
    assert_eq!(Packet::from_message(&queued).payload.ctrl, 0x03);
}

#[test]
fn param_bytes_must_fit() {
    assert!(ParamBytes::from_slice(&[0u8; PARAMS_SIZE + 1]).is_none());
    let full = ParamBytes::from_slice(&[9u8; PARAMS_SIZE]).unwrap();
    let (n, b) = full.to_params();
    assert_eq!(n, PARAMS_SIZE);
    assert_eq!(b, [9u8; PARAMS_SIZE]);
    assert_eq!(ParamBytes::from_slice(&[]).unwrap().to_params().0, 0);
}

#[test]
fn round_trip_preserves_message() {
    let cases = [
        message_with(84, 1, 0, &ptp_params()),
        message_with(246, 0, 0, &[]),
        message_with(62, 1, 1, &[1, 0]),
        message_with(0, 0, 1, &[0xFF; PARAMS_SIZE]),
    ];
    for m in cases.iter() {
        let bytes = encode(m);
        let p = Packet::from_bytes(&bytes).expect("frame");
        let back = p.to_message();
        assert_eq!(back.id, m.id);
        assert_eq!(back.rw, m.rw);
        assert_eq!(back.is_queued, m.is_queued);
        assert_eq!(back.params_len, m.params_len);
        assert_eq!(&back.params[..], &m.params[..]);
    }
}

#[test]
fn largest_frame_fits_packet_buffer() {
    let m = message_with(7, 0, 0, &[3u8; PARAMS_SIZE]);
    let bytes = encode(&m);
    assert_eq!(bytes.len(), PARAMS_SIZE + 6);
    assert!(bytes.len() <= MAX_PACKET_SIZE);
    assert_eq!(bytes[2] as usize, PARAMS_SIZE + 2);
}

#[test]
fn to_bytes_rejects_small_buffer() {
    let m = message_with(84, 1, 0, &ptp_params());
    let p = Packet::from_message(&m);
    let mut buf = [7u8; 22];
    assert!(p.to_bytes(&mut buf).is_err());
    assert_eq!(buf, [7u8; 22]);
    let mut exact = [0u8; 23];
    assert_eq!(p.to_bytes(&mut exact).unwrap(), 23);
}

#[test]
fn single_byte_change_changes_checksum() {
    let params = ptp_params();
    let base = Packet::from_message(&message_with(84, 0, 0, &params)).checksum;
    assert_ne!(Packet::from_message(&message_with(85, 0, 0, &params)).checksum, base);
    assert_ne!(Packet::from_message(&message_with(84, 1, 0, &params)).checksum, base);
    for i in 0..params.len() {
        let mut q = params.clone();
        q[i] = q[i].wrapping_add(1);
        assert_ne!(Packet::from_message(&message_with(84, 0, 0, &q)).checksum, base);
    }
}

#[test]
fn wrong_checksum_is_absent() {
    let mut bytes = encode(&message_with(84, 0, 0, &ptp_params()));
    let last = bytes.len() - 1;
    bytes[last] = bytes[last].wrapping_add(1);
    assert!(Packet::from_bytes(&bytes).is_none());
    let mut reader = FrameReader::new();
    reader.push_bytes(&bytes);
    assert!(reader.next_packet().is_none());
}

#[test]
fn from_bytes_needs_whole_frame() {
    let bytes = encode(&message_with(10, 0, 0, &[1, 2, 3]));
    for n in 0..bytes.len() {
        assert!(Packet::from_bytes(&bytes[..n]).is_none());
    }
    assert!(Packet::from_bytes(&bytes).is_some());
}

#[test]
fn frames_one_byte_at_a_time() {
    let messages = [
        message_with(84, 1, 1, &ptp_params()),
        message_with(246, 0, 0, &[]),
        message_with(62, 1, 0, &[1, 1]),
    ];
    let mut stream = Vec::new();
    for m in messages.iter() {
        stream.extend(encode(m));
    }
    let mut reader = FrameReader::new();
    let mut got = Vec::new();
    for b in stream.iter() {
        reader.push_bytes(&[*b]);
        while let Some(p) = reader.next_packet() {
            got.push(p.to_message());
        }
    }
    assert_eq!(got.len(), 3);
    for (g, m) in got.iter().zip(messages.iter()) {
        assert_eq!(g.id, m.id);
        assert_eq!(g.rw, m.rw);
        assert_eq!(g.is_queued, m.is_queued);
        assert_eq!(&g.params[..], &m.params[..]);
    }
}

#[test]
fn frames_in_uneven_chunks() {
    let messages = [message_with(1, 0, 0, &[9; 20]), message_with(2, 1, 0, &[]), message_with(3, 0, 1, &[5])];
    let mut stream = Vec::new();
    for m in messages.iter() {
        stream.extend(encode(m));
    }
    for chunk in 1..stream.len() + 1 {
        let mut reader = FrameReader::new();
        let mut ids = Vec::new();
        for c in stream.chunks(chunk) {
            reader.push_bytes(c);
            while let Some(p) = reader.next_packet() {
                ids.push(p.payload.id);
            }
        }
        assert_eq!(ids, vec![1, 2, 3]);
    }
}

#[test]
fn stray_bytes_are_skipped() {
    let mut stream = vec![0x00, 0x13, SYNC_BYTE, 0x42];
    stream.extend(encode(&message_with(40, 1, 0, &[1])));
    let mut corrupted = encode(&message_with(41, 1, 0, &[1]));
    corrupted[5] ^= 0xFF;
    stream.extend(corrupted);
    stream.extend(encode(&message_with(42, 1, 0, &[0])));
    let mut reader = FrameReader::new();
    reader.push_bytes(&stream);
    let mut ids = Vec::new();
    while let Some(p) = reader.next_packet() {
        ids.push(p.payload.id);
    }
    assert_eq!(ids, vec![40, 42]);
}

#[test]
fn message_new_encodes_params() {
    let m = Message::new(ProtocolID::ProtocolHHTTrigMode, ReadWrite::Write, false, &Some(HHTTrigMode::TriggeredOnPeriodicInterval));
    assert_eq!((m.id, m.rw, m.is_queued, m.params_len, m.params[0]), (40, 1, 0, 1, 1));
    let m = Message::new(ProtocolID::ProtocolHHTTrigOutputEnabled, ReadWrite::Write, false, &Some(true));
    assert_eq!((m.id, m.params_len, m.params[0]), (41, 1, 1));
    let cap: EndEffectorSuctionCapParams = EndEffectorSuctionCapState::Out.into();
    let m = Message::new(ProtocolID::ProtocolEndEffectorSuctionCup, ReadWrite::Write, true, &Some(cap));
    assert_eq!((m.id, m.rw, m.is_queued, m.params_len, m.params[0], m.params[1]), (62, 1, 1, 2, 1, 0));
    let m = Message::new::<u8>(ProtocolID::ProtocolGetPose, ReadWrite::Read, false, &None);
    assert_eq!((m.id, m.rw, m.is_queued, m.params_len), (10, 0, 0, 0));
}

#[test]
fn suction_cap_states() {
    let off: EndEffectorSuctionCapParams = EndEffectorSuctionCapState::Off.into();
    let on: EndEffectorSuctionCapParams = EndEffectorSuctionCapState::In.into();
    assert_eq!(off, EndEffectorSuctionCapParams { enable_ctrl: false, suck: false });
    assert_eq!(on, EndEffectorSuctionCapParams { enable_ctrl: true, suck: true });
    assert_eq!(on.to_params().0, 2);
    assert_eq!(HHTTrigMode::TriggeredOnKeyReleased.to_params().1[0], 0);
}

#[test]
fn left_space_request() {
    let m = Message::new_get_left_space();
    assert_eq!((m.id, m.rw, m.is_queued, m.params_len), (247, 0, 0, 0));
}

#[test]
fn protocol_codes() {
    assert_eq!(ProtocolID::ProtocolDeviceSN.code(), 0);
    assert_eq!(ProtocolID::ProtocolEndEffectorSuctionCup.code(), 62);
    assert_eq!(ProtocolID::ProtocolQueuedCmdStartExec.code(), 240);
    assert_eq!(ProtocolID::ProtocolQueuedCmdCurrentIndex.code(), 246);
    assert_eq!(ProtocolID::ProtocolCheckUART4PeripheralsModel.code(), 181);
    assert_eq!(ProtocolID::ProtocolFunctionPulseMode.code(), 191);
}

#[test]
fn u64_from_params_is_little_endian() {
    let mut p = [0u8; PARAMS_SIZE];
    p[..8].copy_from_slice(&[0x01, 0x02, 0x03, 0x04, 0x05, 0x06, 0x07, 0x08]);
    p[8] = 0xFF;
    assert_eq!(u64::from_params(8, p), 0x0807_0605_0403_0201);
}

#[test]
fn message_blocks_are_padded() {
    let m = Message::new::<u8>(ProtocolID::ProtocolQueuedCmdCurrentIndex, ReadWrite::Read, false, &None);
    assert_eq!((m.id, m.rw, m.is_queued, m.params_len), (246, 0, 0, 0));
    assert_eq!(m.params, [0u8; PARAMS_SIZE]);
    let m = Message::new(ProtocolID::ProtocolHHTTrigOutputEnabled, ReadWrite::Write, false, &Some(7u8));
    let mut expected = [0u8; PARAMS_SIZE];
    expected[0] = 7;
    assert_eq!(m.params, expected);
    let m = Message::new(ProtocolID::ProtocolHHTTrigMode, ReadWrite::Write, false, &Some(HHTTrigMode::TriggeredOnPeriodicInterval));
    assert_eq!(m.params, [1u8; PARAMS_SIZE]);
    assert_eq!(Message::new_get_left_space().params, [0u8; PARAMS_SIZE]);
    let block = ParamBytes::from_slice(&[4, 5]).unwrap();
    let m = Message::new(ProtocolID::ProtocolPTPCmd, ReadWrite::Write, false, &Some(block));
    let mut expected = [0u8; PARAMS_SIZE];
    expected[..2].copy_from_slice(&[4, 5]);
    assert_eq!(m.params, expected);
}

#[test]
fn receive_reads_every_completed_frame() {
    let messages = [message_with(1, 0, 0, &[9; 3]), message_with(2, 1, 0, &[]), message_with(3, 0, 1, &[5])];
    let mut stream = Vec::new();
    for m in messages.iter() {
        stream.extend(encode(m));
    }
    for chunk in 1..stream.len() + 1 {
        let mut reader = FrameReader::new();
        let mut ids = Vec::new();
        for c in stream.chunks(chunk) {
            ids.extend(reader.receive(c).iter().map(|p| p.payload.id));
        }
        assert_eq!(ids, vec![1, 2, 3]);
        assert!(reader.next_packet().is_none());
    }
}
