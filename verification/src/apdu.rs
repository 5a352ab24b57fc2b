//! The APDU command layer: the transport capability a caller supplies,
//! and the exact byte layout of every command this terminal sends.

use vstd::prelude::*;

use crate::tlv::append_bytes;
use crate::tlv::copy_range;

verus! {

/// A way to reach a card: one request frame in, one raw reply out.  The
/// reply carries at least the two status bytes when the transport
/// worked; nothing else is promised — the card answers as it pleases.
pub trait ApduTransport {
    /// Sends one APDU and returns the raw reply bytes.
    fn send_apdu_raw(&mut self, apdu: &[u8]) -> Result<Vec<u8>, ()>;
}

/// `00 A4 04 00 Lc name`: SELECT by name.
pub open spec fn spec_select_command(aid: Seq<u8>) -> Seq<u8> {
    seq![0x00u8, 0xA4u8, 0x04u8, 0x00u8, aid.len() as u8] + aid
}

/// Builds the SELECT command for an application or directory name.
pub fn build_select_command(aid: &[u8]) -> (r: Vec<u8>)
    requires
        aid@.len() <= 255,
    ensures
        r@ == spec_select_command(aid@),
{
    let mut out: Vec<u8> = Vec::new();
    out.push(0x00);
    out.push(0xA4);
    out.push(0x04);
    out.push(0x00);
    out.push(aid.len() as u8);
    append_bytes(&mut out, aid);
    proof {
        assert(out@ =~= spec_select_command(aid@));
    }
    out
}

/// `00 B2 rec (sfi<<3|4) 00`: READ RECORD.
pub open spec fn spec_read_record_command(sfi: u8, record: u8) -> Seq<u8> {
    seq![0x00u8, 0xB2u8, record, (sfi * 8 + 4) as u8, 0x00u8]
}

/// Builds the READ RECORD command for a short file identifier and a
/// record index.
pub fn build_read_record_command(sfi: u8, record: u8) -> (r: Vec<u8>)
    requires
        sfi < 32,
    ensures
        r@ == spec_read_record_command(sfi, record),
{
    let mut out: Vec<u8> = Vec::new();
    out.push(0x00);
    out.push(0xB2);
    out.push(record);
    out.push(sfi * 8 + 4);
    out.push(0x00);
    proof {
        assert(out@ =~= spec_read_record_command(sfi, record));
    }
    out
}

/// `80 A8 00 00 02 83 00`: GET PROCESSING OPTIONS with an empty PDOL.
pub open spec fn spec_gpo_command() -> Seq<u8> {
    seq![0x80u8, 0xA8u8, 0x00u8, 0x00u8, 0x02u8, 0x83u8, 0x00u8]
}

/// Builds the GET PROCESSING OPTIONS command.
pub fn build_gpo_command() -> (r: Vec<u8>)
    ensures
        r@ == spec_gpo_command(),
{
    let mut out: Vec<u8> = Vec::new();
    out.push(0x80);
    out.push(0xA8);
    out.push(0x00);
    out.push(0x00);
    out.push(0x02);
    out.push(0x83);
    out.push(0x00);
    proof {
        assert(out@ =~= spec_gpo_command());
    }
    out
}

/// `00 84 00 00 00`: GET CHALLENGE.
pub open spec fn spec_get_challenge_command() -> Seq<u8> {
    seq![0x00u8, 0x84u8, 0x00u8, 0x00u8, 0x00u8]
}

/// Builds the GET CHALLENGE command.
pub fn build_get_challenge_command() -> (r: Vec<u8>)
    ensures
        r@ == spec_get_challenge_command(),
{
    let mut out: Vec<u8> = Vec::new();
    out.push(0x00);
    out.push(0x84);
    out.push(0x00);
    out.push(0x00);
    out.push(0x00);
    proof {
        assert(out@ =~= spec_get_challenge_command());
    }
    out
}

/// `80 CA t0 t1 05`: GET DATA for a two-byte tag.
pub open spec fn spec_get_data_command(t0: u8, t1: u8) -> Seq<u8> {
    seq![0x80u8, 0xCAu8, t0, t1, 0x05u8]
}

/// Builds the GET DATA command for a two-byte tag.
pub fn build_get_data_command(t0: u8, t1: u8) -> (r: Vec<u8>)
    ensures
        r@ == spec_get_data_command(t0, t1),
{
    let mut out: Vec<u8> = Vec::new();
    out.push(0x80);
    out.push(0xCA);
    out.push(t0);
    out.push(t1);
    out.push(0x05);
    proof {
        assert(out@ =~= spec_get_data_command(t0, t1));
    }
    out
}

/// `00 88 00 00 Lc data 00`: INTERNAL AUTHENTICATE.
pub open spec fn spec_internal_authenticate_command(auth_data: Seq<u8>) -> Seq<u8> {
    seq![0x00u8, 0x88u8, 0x00u8, 0x00u8, auth_data.len() as u8] + auth_data + seq![0x00u8]
}

/// Builds the INTERNAL AUTHENTICATE command around the expanded DDOL
/// data.
pub fn build_internal_authenticate_command(auth_data: &[u8]) -> (r: Vec<u8>)
    requires
        auth_data@.len() <= 255,
    ensures
        r@ == spec_internal_authenticate_command(auth_data@),
{
    let mut out: Vec<u8> = Vec::new();
    out.push(0x00);
    out.push(0x88);
    out.push(0x00);
    out.push(0x00);
    out.push(auth_data.len() as u8);
    append_bytes(&mut out, auth_data);
    out.push(0x00);
    proof {
        assert(out@ =~= spec_internal_authenticate_command(auth_data@));
    }
    out
}

/// `80 AE 40 00 Lc data 00`: GENERATE AC, requesting a TC (proceed
/// offline) as this terminal always does.
pub open spec fn spec_generate_ac_command(cdol_data: Seq<u8>) -> Seq<u8> {
    seq![0x80u8, 0xAEu8, 0x40u8, 0x00u8, cdol_data.len() as u8] + cdol_data + seq![0x00u8]
}

/// Builds the GENERATE AC command around the expanded CDOL data.
pub fn build_generate_ac_command(cdol_data: &[u8]) -> (r: Vec<u8>)
    requires
        cdol_data@.len() <= 255,
    ensures
        r@ == spec_generate_ac_command(cdol_data@),
{
    let mut out: Vec<u8> = Vec::new();
    out.push(0x80);
    out.push(0xAE);
    out.push(0x40);
    out.push(0x00);
    out.push(cdol_data.len() as u8);
    append_bytes(&mut out, cdol_data);
    out.push(0x00);
    proof {
        assert(out@ =~= spec_generate_ac_command(cdol_data@));
    }
    out
}

/// `00 20 00 80 08 Ctl PIN(6) FF`: VERIFY with a plaintext PIN block.
/// The control byte is `20` plus the PIN digit count.
pub open spec fn spec_verify_plaintext_pin_command(pin_len: int, pin_bcd: Seq<u8>) -> Seq<u8> {
    seq![0x00u8, 0x20u8, 0x00u8, 0x80u8, 0x08u8, (0x20 + pin_len) as u8] + pin_bcd + seq![0xFFu8]
}

/// Builds the VERIFY command for a plaintext PIN block already packed as
/// six bytes of `cn`-format BCD.
pub fn build_verify_plaintext_pin_command(pin_len: usize, pin_bcd: &[u8]) -> (r: Vec<u8>)
    requires
        pin_len <= 12,
        pin_bcd@.len() == 6,
    ensures
        r@ == spec_verify_plaintext_pin_command(pin_len as int, pin_bcd@),
{
    let mut out: Vec<u8> = Vec::new();
    out.push(0x00);
    out.push(0x20);
    out.push(0x00);
    out.push(0x80);
    out.push(0x08);
    out.push(0x20 + pin_len as u8);
    append_bytes(&mut out, pin_bcd);
    out.push(0xFF);
    proof {
        assert(out@ =~= spec_verify_plaintext_pin_command(pin_len as int, pin_bcd@));
    }
    out
}

/// `00 20 00 88 Lc ciphertext`: VERIFY with an enciphered PIN block.
pub open spec fn spec_verify_enciphered_pin_command(ciphertext: Seq<u8>) -> Seq<u8> {
    seq![0x00u8, 0x20u8, 0x00u8, 0x88u8, ciphertext.len() as u8] + ciphertext
}

/// Builds the VERIFY command around an enciphered PIN block.
pub fn build_verify_enciphered_pin_command(ciphertext: &[u8]) -> (r: Vec<u8>)
    requires
        ciphertext@.len() <= 255,
    ensures
        r@ == spec_verify_enciphered_pin_command(ciphertext@),
{
    let mut out: Vec<u8> = Vec::new();
    out.push(0x00);
    out.push(0x20);
    out.push(0x00);
    out.push(0x88);
    out.push(ciphertext.len() as u8);
    append_bytes(&mut out, ciphertext);
    proof {
        assert(out@ =~= spec_verify_enciphered_pin_command(ciphertext@));
    }
    out
}

/// `00 C0 00 00 Le`: GET RESPONSE, asking for `le` more bytes.
pub open spec fn spec_get_response_command(le: u8) -> Seq<u8> {
    seq![0x00u8, 0xC0u8, 0x00u8, 0x00u8, le]
}

/// Builds the GET RESPONSE command.
pub fn build_get_response_command(le: u8) -> (r: Vec<u8>)
    ensures
        r@ == spec_get_response_command(le),
{
    let mut out: Vec<u8> = Vec::new();
    out.push(0x00);
    out.push(0xC0);
    out.push(0x00);
    out.push(0x00);
    out.push(le);
    proof {
        assert(out@ =~= spec_get_response_command(le));
    }
    out
}

/// The original command with its trailing `Le` byte replaced, for the
/// `6C xx` retry.
pub fn rebuild_with_le(apdu: &[u8], le: u8) -> (r: Vec<u8>)
    requires
        apdu@.len() >= 1,
    ensures
        r@ == apdu@.subrange(0, apdu@.len() - 1) + seq![le],
{
    let mut out = copy_range(apdu, 0, apdu.len() - 1);
    out.push(le);
    out
}

} // verus!
