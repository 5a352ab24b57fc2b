//! The terminal side of an EMV contact transaction: BER-TLV parsing
//! into a per-session tag store, the APDU command layer over a
//! caller-supplied transport, application selection, processing options
//! with the AFL record walk, the CA → issuer → ICC certificate chain,
//! dynamic data authentication, PIN verification and GENERATE AC.
//! Everything byte-exact is verified; the RSA and SHA-1 primitives, the
//! clock and the entropy source are trusted calls into outside crates.

use vstd::prelude::*;

pub mod apdu;
pub mod bcd;
pub mod cert;
pub mod connection;
pub mod dol;
pub mod icc;
pub mod rsa;
pub mod store;
pub mod tlv;
pub mod tvr;

verus! {

/// True exactly when an APDU status trailer is the success word `90 00`.
pub fn is_success_response(response_trailer: &Vec<u8>) -> (r: bool)
    ensures
        r == (response_trailer@.len() >= 2 && response_trailer@[0] == 0x90u8
            && response_trailer@[1] == 0x00u8),
{
    response_trailer.len() >= 2 && response_trailer[0] == 0x90 && response_trailer[1] == 0x00
}

} // verus!
