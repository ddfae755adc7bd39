//! A verified DNS wire codec and iterative-resolver state machine.
//!
//! The library covers the RFC 1035 binary message format (header flag word,
//! label-pointer decompression, typed record data, full packets) and the pure
//! decision logic of an iterative resolver that walks referrals from the root,
//! consumes glue records and chases CNAME aliases.  All socket I/O lives
//! outside the library; callers hand in received datagrams as byte slices and
//! send out the byte vectors the codec produces.

pub mod bigendians;
pub mod class;
pub mod errors;
pub mod flags;
pub mod ip;
pub mod names;
pub mod opcode;
pub mod packet;
pub mod question;
pub mod rcode;
pub mod rdata;
pub mod resolver;
pub mod rr;
pub mod rrtype;
pub mod server;
