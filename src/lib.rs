//! ICMP echo probing: the packet model (checksum, Echo Request encoding,
//! Echo Reply decoding, the IPv4 envelope) and the decisions of a single
//! probe, all verified. Sockets and timeouts live with the caller.
pub mod checksum;
pub mod packet;
pub mod probe;

pub use checksum::checksum;
pub use packet::{
    AddressFamily, DecodeError, EchoReply, EchoRequest, EncodeError, IpV4Packet, Token,
    ICMP_HEADER_SIZE, TOKEN_SIZE,
};
pub use probe::{
    effective_ttl, plan_request, read_reply, IdentAllocator, DEFAULT_SEQUENCE, DEFAULT_TIMEOUT_SECS,
    DEFAULT_TTL, ECHO_REQUEST_BUFFER_SIZE, RECEIVE_BUFFER_SIZE,
};
