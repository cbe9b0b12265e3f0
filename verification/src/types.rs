//! Fixed-width byte values: hashes, addresses, signatures, IP addresses.
//!
//! Each type carries its full fixed width of raw octets. Unlike integers,
//! these are never stripped of leading zeroes: the whole width is always
//! emitted, behind the usual byte-string length prefix.

use vstd::prelude::*;

verus! {

use crate::rlp::RLPEncode;
use crate::rlp::encode_bytes;
use crate::rlp::rlp_str;
use crate::rlp::be_bytes;

/// A 4-byte hash value.
#[derive(Clone, Copy)]
pub struct H32(pub [u8; 4]);

/// An 8-byte hash value.
#[derive(Clone, Copy)]
pub struct H64(pub [u8; 8]);

/// A 16-byte hash value.
#[derive(Clone, Copy)]
pub struct H128(pub [u8; 16]);

/// A 32-byte hash value.
#[derive(Clone, Copy)]
pub struct H256(pub [u8; 32]);

/// A 64-byte hash value.
#[derive(Clone, Copy)]
pub struct H512(pub [u8; 64]);

/// A 20-byte account address.
#[derive(Clone, Copy)]
pub struct Address(pub [u8; 20]);

/// A 65-byte recoverable signature.
#[derive(Clone, Copy)]
pub struct Signature(pub [u8; 65]);

/// An IP address, as its raw octets: 4 for version 4, 16 for version 6.
#[derive(Clone, Copy)]
pub enum IpAddress {
    V4([u8; 4]),
    V6([u8; 16]),
}

impl RLPEncode for H32 {
    open spec fn rlp(&self) -> Seq<u8> {
        rlp_str(self.0@)
    }

    fn encode(&self, buf: &mut Vec<u8>) {
        encode_bytes(self.0.as_slice(), buf);
    }

    fn length(&self) -> (n: usize) {
        5
    }
}

impl RLPEncode for H64 {
    open spec fn rlp(&self) -> Seq<u8> {
        rlp_str(self.0@)
    }

    fn encode(&self, buf: &mut Vec<u8>) {
        encode_bytes(self.0.as_slice(), buf);
    }

    fn length(&self) -> (n: usize) {
        9
    }
}

impl RLPEncode for H128 {
    open spec fn rlp(&self) -> Seq<u8> {
        rlp_str(self.0@)
    }

    fn encode(&self, buf: &mut Vec<u8>) {
        encode_bytes(self.0.as_slice(), buf);
    }

    fn length(&self) -> (n: usize) {
        17
    }
}

impl RLPEncode for H256 {
    open spec fn rlp(&self) -> Seq<u8> {
        rlp_str(self.0@)
    }

    fn encode(&self, buf: &mut Vec<u8>) {
        encode_bytes(self.0.as_slice(), buf);
    }

    fn length(&self) -> (n: usize) {
        33
    }
}

impl RLPEncode for H512 {
    open spec fn rlp(&self) -> Seq<u8> {
        rlp_str(self.0@)
    }

    fn encode(&self, buf: &mut Vec<u8>) {
        encode_bytes(self.0.as_slice(), buf);
    }

    fn length(&self) -> (n: usize) {
        proof {
            assert(be_bytes(64) =~= seq![64u8]) by {
                assert(be_bytes(64) == be_bytes(0).push(64u8));
            };
        }
        66
    }
}

impl RLPEncode for Address {
    open spec fn rlp(&self) -> Seq<u8> {
        rlp_str(self.0@)
    }

    fn encode(&self, buf: &mut Vec<u8>) {
        encode_bytes(self.0.as_slice(), buf);
    }

    fn length(&self) -> (n: usize) {
        21
    }
}

impl RLPEncode for Signature {
    open spec fn rlp(&self) -> Seq<u8> {
        rlp_str(self.0@)
    }

    fn encode(&self, buf: &mut Vec<u8>) {
        encode_bytes(self.0.as_slice(), buf);
    }

    fn length(&self) -> (n: usize) {
        proof {
            assert(be_bytes(65) =~= seq![65u8]) by {
                assert(be_bytes(65) == be_bytes(0).push(65u8));
            };
        }
        67
    }
}

impl RLPEncode for IpAddress {
    open spec fn rlp(&self) -> Seq<u8> {
        match self {
            IpAddress::V4(octets) => rlp_str(octets@),
            IpAddress::V6(octets) => rlp_str(octets@),
        }
    }

    fn encode(&self, buf: &mut Vec<u8>) {
        match self {
            IpAddress::V4(octets) => encode_bytes(octets.as_slice(), buf),
            IpAddress::V6(octets) => encode_bytes(octets.as_slice(), buf),
        }
    }

    fn length(&self) -> (n: usize) {
        match self {
            IpAddress::V4(_) => 5,
            IpAddress::V6(_) => 17,
        }
    }
}

} // verus!
