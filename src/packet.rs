//! The ICMP echo packet model: address families, Echo Request encoding,
//! Echo Reply decoding and the IPv4 envelope around a received reply.
use vstd::prelude::*;
use vstd::slice::{slice_subrange, slice_to_vec};
use crate::checksum::{checksum, internet_checksum, with_checksum_field};

verus! {

/// Size of the ICMP echo header: type, code, checksum, identifier, sequence.
pub const ICMP_HEADER_SIZE: usize = 8;

/// Size of the payload token carried by a probe.
pub const TOKEN_SIZE: usize = 24;

/// The opaque payload echoed back by the target.
pub type Token = [u8; TOKEN_SIZE];

/// Smallest IPv4 header, in bytes.
pub const IPV4_MIN_HEADER_SIZE: usize = 20;

/// Which ICMP flavour a packet belongs to; it fixes the echo type codes.
#[derive(Clone, Copy, Debug, PartialEq, Eq, Structural)]
pub enum AddressFamily {
    IcmpV4,
    IcmpV6,
}

impl AddressFamily {
    pub open spec fn request_type(self) -> u8 {
        match self {
            AddressFamily::IcmpV4 => 8,
            AddressFamily::IcmpV6 => 128,
        }
    }

    pub open spec fn reply_type(self) -> u8 {
        match self {
            AddressFamily::IcmpV4 => 0,
            AddressFamily::IcmpV6 => 129,
        }
    }

    /// Whether a reply's checksum is checked on decode. An ICMPv6 checksum
    /// covers a pseudo-header that is not part of the received bytes, so
    /// only ICMPv4 replies are checked.
    pub open spec fn checks_reply_checksum(self) -> bool {
        self == AddressFamily::IcmpV4
    }

    /// Type code of an Echo Request.
    pub fn echo_request_type(&self) -> (r: u8)
        ensures
            r == self.request_type(),
    {
        match self {
            AddressFamily::IcmpV4 => 8,
            AddressFamily::IcmpV6 => 128,
        }
    }

    /// Type code of an Echo Reply.
    pub fn echo_reply_type(&self) -> (r: u8)
        ensures
            r == self.reply_type(),
    {
        match self {
            AddressFamily::IcmpV4 => 0,
            AddressFamily::IcmpV6 => 129,
        }
    }
}

/// Why a request could not be encoded.
#[derive(Clone, Copy, Debug, PartialEq, Eq, Structural)]
pub enum EncodeError {
    BufferTooSmall,
}

/// Why a received buffer is not a valid Echo Reply (or IPv4 envelope).
#[derive(Clone, Copy, Debug, PartialEq, Eq, Structural)]
pub enum DecodeError {
    BufferTooSmall,
    UnexpectedType,
    ChecksumMismatch,
    Malformed,
}

/// High byte of a 16-bit value.
pub open spec fn hi(x: u16) -> u8 {
    (x / 256) as u8
}

/// Low byte of a 16-bit value.
pub open spec fn lo(x: u16) -> u8 {
    (x % 256) as u8
}

/// Big-endian 16-bit value of two bytes.
pub open spec fn be16(h: u8, l: u8) -> u16 {
    (h as int * 256 + l as int) as u16
}

/// An echo header with a zero checksum field, followed by the payload.
pub open spec fn echo_unstamped(ty: u8, ident: u16, seq_cnt: u16, payload: Seq<u8>) -> Seq<u8> {
    seq![ty, 0u8, 0u8, 0u8, hi(ident), lo(ident), hi(seq_cnt), lo(seq_cnt)] + payload
}

/// `s` with the checksum computed over it written into its checksum field.
pub open spec fn stamp(s: Seq<u8>) -> Seq<u8> {
    with_checksum_field(s, internet_checksum(s))
}

/// The bytes of an echo message of type `ty`, checksum included.
pub open spec fn echo_message(ty: u8, ident: u16, seq_cnt: u16, payload: Seq<u8>) -> Seq<u8> {
    stamp(echo_unstamped(ty, ident, seq_cnt, payload))
}

/// An Echo Request: identifier, sequence counter and payload token.
#[derive(Clone, Copy, Debug)]
pub struct EchoRequest {
    pub ident: u16,
    pub seq_cnt: u16,
    pub payload: Token,
}

impl EchoRequest {
    /// The wire bytes of this request for `family`.
    pub open spec fn wire(self, family: AddressFamily) -> Seq<u8> {
        echo_message(family.request_type(), self.ident, self.seq_cnt, self.payload@)
    }

    /// Builds the wire bytes of this request for `family`.
    pub fn to_bytes(&self, family: AddressFamily) -> (r: Vec<u8>)
        ensures
            r@ == self.wire(family),
            internet_checksum(r@) == 0,
    {
        let mut v: Vec<u8> = Vec::with_capacity(ICMP_HEADER_SIZE + TOKEN_SIZE);
        v.push(family.echo_request_type());
        v.push(0);
        v.push(0);
        v.push(0);
        v.push((self.ident / 256) as u8);
        v.push((self.ident % 256) as u8);
        v.push((self.seq_cnt / 256) as u8);
        v.push((self.seq_cnt % 256) as u8);
        let mut i: usize = 0;
        while i < TOKEN_SIZE
            invariant
                i <= TOKEN_SIZE,
                v@ == seq![family.request_type(), 0u8, 0u8, 0u8, hi(self.ident), lo(self.ident),
                    hi(self.seq_cnt), lo(self.seq_cnt)] + self.payload@.subrange(0, i as int),
            decreases TOKEN_SIZE - i,
        {
            v.push(self.payload[i]);
            i = i + 1;
            proof {
                assert(self.payload@.subrange(0, i as int) == self.payload@.subrange(0, i - 1).push(
                    self.payload@[i - 1],
                ));
            }
        }
        proof {
            assert(self.payload@.subrange(0, TOKEN_SIZE as int) == self.payload@);
            assert(v@ == echo_unstamped(family.request_type(), self.ident, self.seq_cnt, self.payload@));
        }
        proof {
            crate::checksum::lemma_stamped_checksum_is_zero(v@);
        }
        let c = checksum(v.as_slice());
        v.set(2, (c / 256) as u8);
        v.set(3, (c % 256) as u8);
        v
    }

    /// Writes this request for `family` at the start of `buffer`: header,
    /// payload, and the checksum over the written region. Bytes past the
    /// message are left as they were. Fails, leaving `buffer` untouched,
    /// when it cannot hold the message.
    pub fn encode(&self, family: AddressFamily, buffer: &mut [u8]) -> (r: Result<(), EncodeError>)
        ensures
            old(buffer)@.len() < ICMP_HEADER_SIZE + TOKEN_SIZE ==> {
                &&& r == Err::<(), EncodeError>(EncodeError::BufferTooSmall)
                &&& final(buffer)@ == old(buffer)@
            },
            old(buffer)@.len() >= ICMP_HEADER_SIZE + TOKEN_SIZE ==> {
                &&& r is Ok
                &&& final(buffer)@ == self.wire(family) + old(buffer)@.subrange(
                    (ICMP_HEADER_SIZE + TOKEN_SIZE) as int,
                    old(buffer)@.len() as int,
                )
            },
    {
        if buffer.len() < ICMP_HEADER_SIZE + TOKEN_SIZE {
            return Err(EncodeError::BufferTooSmall);
        }
        let bytes = self.to_bytes(family);
        let n = bytes.len();
        let ghost rest = old(buffer)@.subrange(n as int, old(buffer)@.len() as int);
        let mut i: usize = 0;
        while i < n
            invariant
                n == bytes@.len(),
                n <= buffer@.len(),
                buffer@.len() == old(buffer)@.len(),
                i <= n,
                forall|j: int| 0 <= j < i ==> buffer@[j] == bytes@[j],
                forall|j: int| n <= j < buffer@.len() ==> buffer@[j] == old(buffer)@[j],
            decreases n - i,
        {
            buffer[i] = bytes[i];
            i = i + 1;
        }
        proof {
            assert(buffer@ =~= bytes@ + rest);
        }
        Ok(())
    }
}

/// The fields of a decoded Echo Reply.
pub struct EchoReplyView {
    pub ident: u16,
    pub seq_cnt: u16,
    pub payload: Seq<u8>,
}

/// A validated Echo Reply: identifier, sequence counter and the bytes after
/// the header.
#[derive(Clone, Debug)]
pub struct EchoReply {
    pub ident: u16,
    pub seq_cnt: u16,
    pub payload: Vec<u8>,
}

impl View for EchoReply {
    type V = EchoReplyView;

    open spec fn view(&self) -> EchoReplyView {
        EchoReplyView { ident: self.ident, seq_cnt: self.seq_cnt, payload: self.payload@ }
    }
}

/// What decoding `s` as an Echo Reply of `family` gives.
pub open spec fn decode_reply(family: AddressFamily, s: Seq<u8>) -> Result<EchoReplyView, DecodeError> {
    if s.len() < ICMP_HEADER_SIZE {
        Err(DecodeError::BufferTooSmall)
    } else if s[0] != family.reply_type() || s[1] != 0 {
        Err(DecodeError::UnexpectedType)
    } else if family.checks_reply_checksum() && internet_checksum(s) != 0 {
        Err(DecodeError::ChecksumMismatch)
    } else {
        Ok(
            EchoReplyView {
                ident: be16(s[4], s[5]),
                seq_cnt: be16(s[6], s[7]),
                payload: s.subrange(ICMP_HEADER_SIZE as int, s.len() as int),
            },
        )
    }
}

impl EchoReply {
    /// Decodes and validates an Echo Reply of `family` from `buffer`.
    pub fn decode(family: AddressFamily, buffer: &[u8]) -> (r: Result<EchoReply, DecodeError>)
        ensures
            match r {
                Ok(reply) => decode_reply(family, buffer@) == Ok::<EchoReplyView, DecodeError>(reply@),
                Err(e) => decode_reply(family, buffer@) == Err::<EchoReplyView, DecodeError>(e),
            },
    {
        let n = buffer.len();
        if n < ICMP_HEADER_SIZE {
            return Err(DecodeError::BufferTooSmall);
        }
        if buffer[0] != family.echo_reply_type() || buffer[1] != 0 {
            return Err(DecodeError::UnexpectedType);
        }
        if family == AddressFamily::IcmpV4 && checksum(buffer) != 0 {
            return Err(DecodeError::ChecksumMismatch);
        }
        let ident = (buffer[4] as u16) * 256 + buffer[5] as u16;
        let seq_cnt = (buffer[6] as u16) * 256 + buffer[7] as u16;
        let payload = slice_to_vec(slice_subrange(buffer, ICMP_HEADER_SIZE, n));
        let reply = EchoReply { ident, seq_cnt, payload };
        proof {
            assert(reply@.payload == buffer@.subrange(ICMP_HEADER_SIZE as int, n as int));
        }
        Ok(reply)
    }
}

/// Header length in bytes announced by the first byte of an IPv4 datagram:
/// its low four bits count 32-bit words.
pub open spec fn ipv4_header_len(raw: Seq<u8>) -> int {
    (raw[0] % 16) as int * 4
}

/// The ICMP segment carried by the IPv4 datagram `raw`.
pub open spec fn ipv4_payload(raw: Seq<u8>) -> Result<Seq<u8>, DecodeError> {
    if raw.len() == 0 || ipv4_header_len(raw) < IPV4_MIN_HEADER_SIZE || raw.len()
        < ipv4_header_len(raw) {
        Err(DecodeError::Malformed)
    } else {
        Ok(raw.subrange(ipv4_header_len(raw), raw.len() as int))
    }
}

/// A received IPv4 datagram, split at the end of its header. `data` borrows
/// the bytes after the header: the ICMP segment.
#[derive(Debug)]
pub struct IpV4Packet<'a> {
    pub header_len: usize,
    pub total_length: u16,
    pub data: &'a [u8],
}

impl<'a> IpV4Packet<'a> {
    /// Locates the end of the IPv4 header of `raw` and exposes what follows.
    /// Fails with `Malformed` when the announced header is shorter than the
    /// minimum or longer than `raw`.
    pub fn decode(raw: &'a [u8]) -> (r: Result<IpV4Packet<'a>, DecodeError>)
        ensures
            match r {
                Ok(p) => {
                    &&& ipv4_payload(raw@) == Ok::<Seq<u8>, DecodeError>(p.data@)
                    &&& p.header_len == ipv4_header_len(raw@)
                    &&& p.total_length == be16(raw@[2], raw@[3])
                },
                Err(e) => ipv4_payload(raw@) == Err::<Seq<u8>, DecodeError>(e),
            },
    {
        let n = raw.len();
        if n == 0 {
            return Err(DecodeError::Malformed);
        }
        let header_len = ((raw[0] % 16) as usize) * 4;
        if header_len < IPV4_MIN_HEADER_SIZE || n < header_len {
            return Err(DecodeError::Malformed);
        }
        let total_length = (raw[2] as u16) * 256 + raw[3] as u16;
        let data = slice_subrange(raw, header_len, n);
        Ok(IpV4Packet { header_len, total_length, data })
    }
}

/// `m` turned into the matching reply: its type byte set to the family's
/// reply type and its checksum computed again.
pub open spec fn as_reply(family: AddressFamily, m: Seq<u8>) -> Seq<u8> {
    stamp(m.update(0, family.reply_type()).update(2, 0u8).update(3, 0u8))
}

proof fn lemma_be16_bytes(x: u16)
    ensures
        be16(hi(x), lo(x)) == x,
{
}

/// Encoding a request and decoding it as a reply, once its type byte is
/// flipped to the reply type and its checksum recomputed, gives back the
/// request's identifier, sequence and payload.
pub proof fn lemma_echo_round_trip(family: AddressFamily, req: EchoRequest)
    ensures
        decode_reply(family, as_reply(family, req.wire(family))) == Ok::<EchoReplyView, DecodeError>(
            EchoReplyView { ident: req.ident, seq_cnt: req.seq_cnt, payload: req.payload@ },
        ),
{
    let u = echo_unstamped(family.request_type(), req.ident, req.seq_cnt, req.payload@);
    let v = echo_unstamped(family.reply_type(), req.ident, req.seq_cnt, req.payload@);
    let m = req.wire(family);
    assert(m.update(0, family.reply_type()).update(2, 0u8).update(3, 0u8) =~= v);
    let s = as_reply(family, m);
    assert(s == stamp(v));
    crate::checksum::lemma_stamped_checksum_is_zero(v);
    lemma_be16_bytes(req.ident);
    lemma_be16_bytes(req.seq_cnt);
    assert(s.subrange(ICMP_HEADER_SIZE as int, s.len() as int) =~= req.payload@);
}

/// A valid ICMPv4 Echo Reply with one byte past its type and code changed
/// is rejected with a checksum mismatch.
pub proof fn lemma_altered_byte_rejected(s: Seq<u8>, i: int, v: u8)
    requires
        decode_reply(AddressFamily::IcmpV4, s) is Ok,
        2 <= i < s.len(),
        v != s[i],
    ensures
        decode_reply(AddressFamily::IcmpV4, s.update(i, v)) == Err::<EchoReplyView, DecodeError>(
            DecodeError::ChecksumMismatch,
        ),
{
    crate::checksum::lemma_single_byte_change_detected(s, i, v);
}

/// A buffer whose type byte is not the family's reply type is rejected,
/// whatever its checksum.
pub proof fn lemma_wrong_type_rejected(family: AddressFamily, s: Seq<u8>)
    requires
        s.len() >= ICMP_HEADER_SIZE,
        s[0] != family.reply_type(),
    ensures
        decode_reply(family, s) == Err::<EchoReplyView, DecodeError>(DecodeError::UnexpectedType),
{
}

/// With a header length field of 5 words, the ICMP segment starts at byte 20.
pub proof fn lemma_minimum_header_offset(raw: Seq<u8>)
    requires
        raw.len() >= IPV4_MIN_HEADER_SIZE,
        raw[0] % 16 == 5,
    ensures
        ipv4_payload(raw) == Ok::<Seq<u8>, DecodeError>(raw.subrange(20, raw.len() as int)),
{
}

/// A buffer shorter than the echo header is rejected as too small.
pub proof fn lemma_short_buffer_rejected(family: AddressFamily, s: Seq<u8>)
    requires
        s.len() < ICMP_HEADER_SIZE,
    ensures
        decode_reply(family, s) == Err::<EchoReplyView, DecodeError>(DecodeError::BufferTooSmall),
{
}

} // verus!
