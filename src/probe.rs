//! The decisions of a single probe: which request to send, and what the
//! received bytes say. Sending and receiving are left to the caller.
use vstd::prelude::*;
use crate::packet::{
    decode_reply, ipv4_payload, AddressFamily, DecodeError, EchoReply, EchoReplyView, EchoRequest,
    IpV4Packet, Token, ICMP_HEADER_SIZE, TOKEN_SIZE,
};

verus! {

/// Timeout applied to sending and to receiving when the caller gives none.
pub const DEFAULT_TIMEOUT_SECS: u64 = 4;

/// Time-to-live of the probe when the caller gives none.
pub const DEFAULT_TTL: u32 = 64;

/// Sequence number of the probe when the caller gives none.
pub const DEFAULT_SEQUENCE: u16 = 1;

/// Size of the buffer that an Echo Request is encoded into.
pub const ECHO_REQUEST_BUFFER_SIZE: usize = ICMP_HEADER_SIZE + TOKEN_SIZE;

/// Size of the buffer that a reply is received into.
pub const RECEIVE_BUFFER_SIZE: usize = 2048;

/// Hands out identifiers for probes: a 16-bit counter that starts at zero
/// and wraps around.
#[derive(Debug)]
pub struct IdentAllocator {
    next: u16,
}

impl View for IdentAllocator {
    type V = u16;

    /// The identifier that the next allocation returns.
    closed spec fn view(&self) -> u16 {
        self.next
    }
}

/// The identifier after `x`, wrapping from 0xFFFF to 0.
pub open spec fn next_ident(x: u16) -> u16 {
    if x == 0xFFFF {
        0
    } else {
        (x + 1) as u16
    }
}

impl IdentAllocator {
    /// An allocator whose first identifier is zero.
    pub fn new() -> (r: IdentAllocator)
        ensures
            r@ == 0,
    {
        IdentAllocator { next: 0 }
    }

    /// Returns the current identifier and advances the counter by one.
    pub fn allocate(&mut self) -> (r: u16)
        ensures
            r == old(self)@,
            final(self)@ == next_ident(old(self)@),
    {
        let r = self.next;
        self.next = if r == 0xFFFF {
            0
        } else {
            r + 1
        };
        r
    }
}

/// The time-to-live to set: the given one, or the default.
pub fn effective_ttl(ttl: Option<u32>) -> (r: u32)
    ensures
        r == match ttl {
            Some(t) => t,
            None => DEFAULT_TTL,
        },
{
    match ttl {
        Some(t) => t,
        None => DEFAULT_TTL,
    }
}

/// Builds the request of a probe from what the caller gave. A missing
/// identifier is taken from `idents`, which advances only then; a missing
/// sequence is `DEFAULT_SEQUENCE`; a missing payload is all zeros.
pub fn plan_request(
    ident: Option<u16>,
    seq_cnt: Option<u16>,
    payload: Option<&Token>,
    idents: &mut IdentAllocator,
) -> (r: EchoRequest)
    ensures
        r.ident == match ident {
            Some(i) => i,
            None => old(idents)@,
        },
        final(idents)@ == match ident {
            Some(_) => old(idents)@,
            None => next_ident(old(idents)@),
        },
        r.seq_cnt == match seq_cnt {
            Some(s) => s,
            None => DEFAULT_SEQUENCE,
        },
        r.payload@ == match payload {
            Some(p) => p@,
            None => Seq::new(TOKEN_SIZE as nat, |i: int| 0u8),
        },
{
    let ident = match ident {
        Some(i) => i,
        None => idents.allocate(),
    };
    let seq_cnt = match seq_cnt {
        Some(s) => s,
        None => DEFAULT_SEQUENCE,
    };
    let payload: Token = match payload {
        Some(p) => *p,
        None => {
            let z: Token = [0u8; TOKEN_SIZE];
            proof {
                assert(z@ =~= Seq::new(TOKEN_SIZE as nat, |i: int| 0u8));
            }
            z
        },
    };
    EchoRequest { ident, seq_cnt, payload }
}

/// What the bytes received for a probe of `family` hold: an IPv4 datagram
/// is first stripped of its IP header, an ICMPv6 message is decoded as it is.
pub open spec fn probe_reply(family: AddressFamily, received: Seq<u8>) -> Result<
    EchoReplyView,
    DecodeError,
> {
    match family {
        AddressFamily::IcmpV4 => match ipv4_payload(received) {
            Ok(segment) => decode_reply(family, segment),
            Err(e) => Err(e),
        },
        AddressFamily::IcmpV6 => decode_reply(family, received),
    }
}

/// Reads the Echo Reply out of the bytes received for a probe of `family`.
pub fn read_reply(family: AddressFamily, received: &[u8]) -> (r: Result<EchoReply, DecodeError>)
    ensures
        match r {
            Ok(reply) => probe_reply(family, received@) == Ok::<EchoReplyView, DecodeError>(
                reply@,
            ),
            Err(e) => probe_reply(family, received@) == Err::<EchoReplyView, DecodeError>(e),
        },
{
    match family {
        AddressFamily::IcmpV4 => match IpV4Packet::decode(received) {
            Ok(packet) => EchoReply::decode(family, packet.data),
            Err(e) => Err(e),
        },
        AddressFamily::IcmpV6 => EchoReply::decode(family, received),
    }
}

} // verus!
