use ping::{
    checksum, effective_ttl, plan_request, read_reply, AddressFamily, DecodeError, IdentAllocator,
    DEFAULT_SEQUENCE, DEFAULT_TTL, TOKEN_SIZE,
};

fn reply_bytes(reply_type: u8, ident: u16, seq_cnt: u16, payload: &[u8]) -> Vec<u8> {
    let mut buf = vec![reply_type, 0, 0, 0];
    buf.extend_from_slice(&ident.to_be_bytes());
    buf.extend_from_slice(&seq_cnt.to_be_bytes());
    buf.extend_from_slice(payload);
    let c = checksum(&buf);
    buf[2] = (c >> 8) as u8;
    buf[3] = (c & 0xff) as u8;
    buf
}

#[test]
fn allocator_counts_from_zero() {
    let mut idents = IdentAllocator::new();
    assert_eq!(idents.allocate(), 0);
    assert_eq!(idents.allocate(), 1);
    assert_eq!(idents.allocate(), 2);
}

#[test]
fn allocator_wraps_around() {
    let mut idents = IdentAllocator::new();
    for expected in 0..=u16::MAX {
        assert_eq!(idents.allocate(), expected);
    }
    assert_eq!(idents.allocate(), 0);
}

#[test]
fn plan_request_uses_given_values() {
    let mut idents = IdentAllocator::new();
    let token = [7u8; TOKEN_SIZE];
    let req = plan_request(Some(3), Some(5), Some(&token), &mut idents);
    assert_eq!(req.ident, 3);
    assert_eq!(req.seq_cnt, 5);
    assert_eq!(req.payload, token);
    assert_eq!(idents.allocate(), 0);
}

#[test]
fn plan_request_defaults() {
    let mut idents = IdentAllocator::new();
    let first = plan_request(None, None, None, &mut idents);
    let second = plan_request(None, None, None, &mut idents);
    assert_eq!(first.ident, 0);
    assert_eq!(second.ident, 1);
    assert_eq!(first.seq_cnt, DEFAULT_SEQUENCE);
    assert_eq!(first.seq_cnt, 1);
    assert_eq!(first.payload, [0u8; TOKEN_SIZE]);
}

#[test]
fn ttl_default_and_given() {
    assert_eq!(effective_ttl(None), DEFAULT_TTL);
    assert_eq!(effective_ttl(None), 64);
    assert_eq!(effective_ttl(Some(166)), 166);
}

#[test]
fn read_reply_v4_strips_ip_header() {
    let mut raw = vec![0u8; 20];
    raw[0] = 0x45;
    raw.extend(reply_bytes(0, 3, 5, &[7; TOKEN_SIZE]));
    let reply = read_reply(AddressFamily::IcmpV4, &raw).unwrap();
    assert_eq!(reply.ident, 3);
    assert_eq!(reply.seq_cnt, 5);
    assert_eq!(reply.payload, vec![7u8; TOKEN_SIZE]);
}

#[test]
fn read_reply_v4_bad_envelope() {
    let raw = reply_bytes(0, 3, 5, &[7; TOKEN_SIZE]);
    assert_eq!(read_reply(AddressFamily::IcmpV4, &raw).unwrap_err(), DecodeError::Malformed);
}

#[test]
fn read_reply_v4_bad_checksum() {
    let mut raw = vec![0u8; 20];
    raw[0] = 0x45;
    raw.extend(reply_bytes(0, 3, 5, &[7; TOKEN_SIZE]));
    raw[30] ^= 1;
    assert_eq!(
        read_reply(AddressFamily::IcmpV4, &raw).unwrap_err(),
        DecodeError::ChecksumMismatch
    );
}

#[test]
fn read_reply_v4_short_segment() {
    let mut raw = vec![0u8; 24];
    raw[0] = 0x45;
    assert_eq!(read_reply(AddressFamily::IcmpV4, &raw).unwrap_err(), DecodeError::BufferTooSmall);
}

#[test]
fn read_reply_v6_direct() {
    let raw = reply_bytes(129, 0xabcd, 2, &[1, 2, 3]);
    let reply = read_reply(AddressFamily::IcmpV6, &raw).unwrap();
    assert_eq!(reply.ident, 0xabcd);
    assert_eq!(reply.seq_cnt, 2);
    assert_eq!(reply.payload, vec![1, 2, 3]);
}

#[test]
fn read_reply_v6_request_rejected() {
    let raw = reply_bytes(128, 1, 1, &[]);
    assert_eq!(
        read_reply(AddressFamily::IcmpV6, &raw).unwrap_err(),
        DecodeError::UnexpectedType
    );
}
