use qc_control::snoop::btsnoop::{format_time, parse, Direction, ParseError, Record, EPOCH_OFFSET_US};
use qc_control::snoop::stack::{
    format_addr, Decoder, RfcommFrameKind, EVT_CONNECTION_COMPLETE, EVT_DISCONNECTION_COMPLETE,
    H4_ACL, H4_EVENT, L2CAP_CID_SIGNALLING, L2CAP_PSM_RFCOMM, L2CAP_SIG_CONNECTION_REQUEST,
    L2CAP_SIG_CONNECTION_RESPONSE, RFCOMM_PF, RFCOMM_UIH,
};

const MAGIC: &[u8; 8] = b"btsnoop\0";

fn build(records: &[(u32, i64, &[u8])]) -> Vec<u8> {
    let mut out = Vec::new();
    out.extend_from_slice(MAGIC);
    out.extend_from_slice(&1u32.to_be_bytes());
    out.extend_from_slice(&1002u32.to_be_bytes());
    for (flags, ts, data) in records {
        out.extend_from_slice(&(data.len() as u32).to_be_bytes());
        out.extend_from_slice(&(data.len() as u32).to_be_bytes());
        out.extend_from_slice(&flags.to_be_bytes());
        out.extend_from_slice(&0u32.to_be_bytes());
        out.extend_from_slice(&ts.to_be_bytes());
        out.extend_from_slice(data);
    }
    out
}

#[test]
fn rejects_a_non_btsnoop_file() {
    assert!(matches!(parse(b"not a log at all!!"), Err(ParseError::BadMagic)));
}

#[test]
fn rejects_short_input() {
    assert!(matches!(parse(b"btsno"), Err(ParseError::TooShort)));
}

#[test]
fn rejects_unsupported_datalink() {
    let mut f = Vec::new();
    f.extend_from_slice(MAGIC);
    f.extend_from_slice(&1u32.to_be_bytes());
    f.extend_from_slice(&99u32.to_be_bytes());
    assert!(matches!(parse(&f), Err(ParseError::UnsupportedDatalink(99))));
}

#[test]
fn reads_direction_from_the_flag_bit() {
    let f = build(&[(0, EPOCH_OFFSET_US, &[0x02, 0xAA]), (1, EPOCH_OFFSET_US, &[0x02, 0xBB])]);
    let recs = parse(&f).unwrap();
    assert_eq!(recs.len(), 2);
    assert_eq!(recs[0].direction, Direction::Sent);
    assert_eq!(recs[1].direction, Direction::Received);
}

#[test]
fn converts_timestamps_to_the_unix_epoch() {
    let f = build(&[(0, EPOCH_OFFSET_US, &[0x02])]);
    assert_eq!(parse(&f).unwrap()[0].timestamp_us, 0);
}

#[test]
fn ignores_a_truncated_trailing_record() {
    let mut f = build(&[(0, EPOCH_OFFSET_US, &[0x02, 0x01, 0x02])]);
    f.extend_from_slice(&[0, 0, 0, 99, 0, 0, 0, 99]);
    let recs = parse(&f).unwrap();
    assert_eq!(recs.len(), 1);
}

#[test]
fn formats_times() {
    assert_eq!(format_time(0), "00:00:00.000");
    assert_eq!(format_time(3_661_500_000), "01:01:01.500");
}

fn rec(data: Vec<u8>, dir: Direction) -> Record {
    Record {
        timestamp_us: 0,
        direction: dir,
        data,
    }
}

fn connection_complete(handle: u16, addr_le: [u8; 6]) -> Record {
    let mut d = vec![H4_EVENT, EVT_CONNECTION_COMPLETE, 11, 0x00];
    d.extend_from_slice(&handle.to_le_bytes());
    d.extend_from_slice(&addr_le);
    d.extend_from_slice(&[0x01, 0x00]);
    rec(d, Direction::Received)
}

fn acl(handle: u16, cid: u16, payload: &[u8], dir: Direction) -> Record {
    let mut l2cap = Vec::new();
    l2cap.extend_from_slice(&(payload.len() as u16).to_le_bytes());
    l2cap.extend_from_slice(&cid.to_le_bytes());
    l2cap.extend_from_slice(payload);

    let mut d = vec![H4_ACL];
    d.extend_from_slice(&(handle | (2 << 12)).to_le_bytes());
    d.extend_from_slice(&(l2cap.len() as u16).to_le_bytes());
    d.extend_from_slice(&l2cap);
    rec(d, dir)
}

fn sig_connect_rfcomm(handle: u16, ident: u8, src_cid: u16, dst_cid: u16) -> Vec<Record> {
    let mut req = vec![L2CAP_SIG_CONNECTION_REQUEST, ident, 4, 0];
    req.extend_from_slice(&L2CAP_PSM_RFCOMM.to_le_bytes());
    req.extend_from_slice(&src_cid.to_le_bytes());

    let mut resp = vec![L2CAP_SIG_CONNECTION_RESPONSE, ident, 8, 0];
    resp.extend_from_slice(&dst_cid.to_le_bytes());
    resp.extend_from_slice(&src_cid.to_le_bytes());
    resp.extend_from_slice(&0u16.to_le_bytes());
    resp.extend_from_slice(&0u16.to_le_bytes());

    vec![
        acl(handle, L2CAP_CID_SIGNALLING, &req, Direction::Sent),
        acl(handle, L2CAP_CID_SIGNALLING, &resp, Direction::Received),
    ]
}

fn uih(dlci: u8, payload: &[u8]) -> Vec<u8> {
    let mut f = vec![(dlci << 2) | 0x03, RFCOMM_UIH];
    f.push(((payload.len() as u8) << 1) | 0x01);
    f.extend_from_slice(payload);
    f.push(0x00);
    f
}

#[test]
fn addresses_are_byte_reversed_from_hci() {
    assert_eq!(
        format_addr(&[0x2E, 0xF0, 0xF9, 0xBC, 0x58, 0xE4]),
        "E458BCF9F02E"
    );
}

#[test]
fn learns_the_address_for_a_handle() {
    let mut d = Decoder::new();
    d.push(&connection_complete(0x0C, [0x2E, 0xF0, 0xF9, 0xBC, 0x58, 0xE4]));
    assert_eq!(d.address_for(0x0C).as_deref(), Some("E458BCF9F02E"));
}

#[test]
fn ignores_cids_that_are_not_rfcomm() {
    let mut d = Decoder::new();
    d.push(&connection_complete(0x0C, [0; 6]));
    let frames = d.push(&acl(0x0C, 0x0041, &uih(3, b"hello"), Direction::Sent));
    assert!(frames.is_empty());
}

#[test]
fn decodes_a_uih_payload_after_an_rfcomm_handshake() {
    let mut d = Decoder::new();
    d.push(&connection_complete(0x0C, [0x2E, 0xF0, 0xF9, 0xBC, 0x58, 0xE4]));
    for r in sig_connect_rfcomm(0x0C, 1, 0x0040, 0x0041) {
        d.push(&r);
    }
    let frames = d.push(&acl(0x0C, 0x0041, &uih(3, b"hello"), Direction::Sent));
    assert_eq!(frames.len(), 1);
    assert_eq!(frames[0].kind, RfcommFrameKind::Uih);
    assert_eq!(frames[0].dlci, 3);
    assert_eq!(frames[0].payload, b"hello");
    assert_eq!(frames[0].address.as_deref(), Some("E458BCF9F02E"));
}

#[test]
fn strips_the_credit_byte_from_uih_with_pf_set() {
    let mut d = Decoder::new();
    d.push(&connection_complete(0x0C, [0; 6]));
    for r in sig_connect_rfcomm(0x0C, 1, 0x0040, 0x0041) {
        d.push(&r);
    }
    let mut f = vec![(3 << 2) | 0x03, RFCOMM_UIH | RFCOMM_PF];
    let payload = b"\x07data";
    f.push(((payload.len() as u8) << 1) | 0x01);
    f.extend_from_slice(payload);
    f.push(0x00);

    let frames = d.push(&acl(0x0C, 0x0041, &f, Direction::Sent));
    assert_eq!(frames[0].payload, b"data");
}

#[test]
fn reassembles_a_fragmented_l2cap_pdu() {
    let mut d = Decoder::new();
    d.push(&connection_complete(0x0C, [0; 6]));
    for r in sig_connect_rfcomm(0x0C, 1, 0x0040, 0x0041) {
        d.push(&r);
    }

    let frame = uih(3, b"fragmented payload");
    let mut l2cap = Vec::new();
    l2cap.extend_from_slice(&(frame.len() as u16).to_le_bytes());
    l2cap.extend_from_slice(&0x0041u16.to_le_bytes());
    l2cap.extend_from_slice(&frame);

    let (a, b) = l2cap.split_at(6);

    let mut first = vec![H4_ACL];
    first.extend_from_slice(&(0x0Cu16 | (2 << 12)).to_le_bytes());
    first.extend_from_slice(&(a.len() as u16).to_le_bytes());
    first.extend_from_slice(a);
    assert!(d.push(&rec(first, Direction::Sent)).is_empty());

    let mut second = vec![H4_ACL];
    second.extend_from_slice(&(0x0Cu16 | (1 << 12)).to_le_bytes());
    second.extend_from_slice(&(b.len() as u16).to_le_bytes());
    second.extend_from_slice(b);
    let frames = d.push(&rec(second, Direction::Sent));

    assert_eq!(frames.len(), 1);
    assert_eq!(frames[0].payload, b"fragmented payload");
}

#[test]
fn disconnection_forgets_the_handle() {
    let mut d = Decoder::new();
    d.push(&connection_complete(0x0C, [0x2E, 0xF0, 0xF9, 0xBC, 0x58, 0xE4]));
    let mut ev = vec![H4_EVENT, EVT_DISCONNECTION_COMPLETE, 4, 0x00];
    ev.extend_from_slice(&0x0Cu16.to_le_bytes());
    ev.push(0x13);
    d.push(&rec(ev, Direction::Received));
    assert!(d.knows_no_connections());
}

fn sig_request(handle: u16, ident: u8, psm: u16, src_cid: u16) -> Record {
    let mut req = vec![L2CAP_SIG_CONNECTION_REQUEST, ident, 4, 0];
    req.extend_from_slice(&psm.to_le_bytes());
    req.extend_from_slice(&src_cid.to_le_bytes());
    acl(handle, L2CAP_CID_SIGNALLING, &req, Direction::Sent)
}

fn sig_response(handle: u16, ident: u8, dst_cid: u16, src_cid: u16, result: u16) -> Record {
    let mut resp = vec![L2CAP_SIG_CONNECTION_RESPONSE, ident, 8, 0];
    resp.extend_from_slice(&dst_cid.to_le_bytes());
    resp.extend_from_slice(&src_cid.to_le_bytes());
    resp.extend_from_slice(&result.to_le_bytes());
    resp.extend_from_slice(&0u16.to_le_bytes());
    acl(handle, L2CAP_CID_SIGNALLING, &resp, Direction::Received)
}

fn disconnection(handle: u16) -> Record {
    let mut ev = vec![H4_EVENT, EVT_DISCONNECTION_COMPLETE, 4, 0x00];
    ev.extend_from_slice(&handle.to_le_bytes());
    ev.push(0x13);
    rec(ev, Direction::Received)
}

#[test]
fn a_refused_response_registers_no_channel() {
    let mut d = Decoder::new();
    d.push(&sig_request(0x0C, 1, L2CAP_PSM_RFCOMM, 0x0040));
    d.push(&sig_response(0x0C, 1, 0x0041, 0x0040, 0x0004));
    assert!(d.push(&acl(0x0C, 0x0041, &uih(3, b"x"), Direction::Sent)).is_empty());
    assert!(d.push(&acl(0x0C, 0x0040, &uih(3, b"x"), Direction::Sent)).is_empty());
}

#[test]
fn a_handshake_for_another_psm_registers_no_channel() {
    let mut d = Decoder::new();
    d.push(&sig_request(0x0C, 1, 0x0001, 0x0040));
    d.push(&sig_response(0x0C, 1, 0x0041, 0x0040, 0));
    assert!(d.push(&acl(0x0C, 0x0041, &uih(3, b"x"), Direction::Sent)).is_empty());
}

#[test]
fn a_response_with_another_identifier_registers_no_channel() {
    let mut d = Decoder::new();
    d.push(&sig_request(0x0C, 1, L2CAP_PSM_RFCOMM, 0x0040));
    d.push(&sig_response(0x0C, 2, 0x0041, 0x0040, 0));
    assert!(d.push(&acl(0x0C, 0x0041, &uih(3, b"x"), Direction::Sent)).is_empty());
}

#[test]
fn a_handshake_registers_channels_only_on_its_own_handle() {
    let mut d = Decoder::new();
    for r in sig_connect_rfcomm(0x0C, 1, 0x0040, 0x0041) {
        d.push(&r);
    }
    assert!(d.push(&acl(0x0D, 0x0041, &uih(3, b"x"), Direction::Sent)).is_empty());
    assert_eq!(d.push(&acl(0x0C, 0x0040, &uih(3, b"y"), Direction::Received)).len(), 1);
}

#[test]
fn channels_are_forgotten_once_the_handle_disconnects() {
    let mut d = Decoder::new();
    for r in sig_connect_rfcomm(0x0C, 1, 0x0040, 0x0041) {
        d.push(&r);
    }
    assert_eq!(d.push(&acl(0x0C, 0x0041, &uih(3, b"x"), Direction::Sent)).len(), 1);
    d.push(&disconnection(0x0C));
    assert!(d.push(&acl(0x0C, 0x0041, &uih(3, b"x"), Direction::Sent)).is_empty());
}
