//! The EMV public-key certificate chain (EMV Book 2, 6.3 and 6.4): the
//! scheme CA key recovers the issuer key from tag `90`, the issuer key
//! recovers the ICC key from tag `9F46`.  Each recovered plaintext is a
//! `6A … BC` envelope whose format bytes, SHA-1 hash and PAN linkage are
//! checked here; an expired certificate is only a warning.

use vstd::prelude::*;

use chrono::Datelike;

use crate::bcd::bcd_to_ascii;
use crate::bcd::bcd_to_ascii_spec;
use crate::rsa::RsaPublicKey;
use crate::rsa::bytes_eq;
use crate::rsa::rsa_public_decrypt_accepts;
use crate::rsa::rsa_public_decrypt_of;
use crate::rsa::sha1;
use crate::rsa::sha1_of;
use crate::tlv::append_bytes;
use crate::tlv::copy_range;

verus! {

/// The issuer identification number of a certificate is the leading
/// digits of the PAN.
pub open spec fn spec_iin_matches_pan(iin: Seq<u8>, pan: Seq<u8>) -> bool {
    match (bcd_to_ascii_spec(iin, false), bcd_to_ascii_spec(pan, false)) {
        (Some(a), Some(p)) => a.len() <= p.len() && a == p.subrange(0, a.len() as int),
        _ => false,
    }
}

/// A sound issuer certificate, as recovered under the CA key of modulus
/// length `n_len`: the envelope, the type byte `02`, SHA-1 and RSA
/// algorithm bytes, the hash over the certificate body followed by the
/// key remainder (tag `92`) and the exponent (tag `9F32`), and the IIN
/// standing at the front of the PAN (tag `5A`).
pub open spec fn spec_issuer_cert_valid(
    cert: Seq<u8>,
    n_len: int,
    t92: Seq<u8>,
    t9f32: Seq<u8>,
    t5a: Seq<u8>,
) -> bool {
    &&& cert.len() == n_len
    &&& cert.len() >= 36
    &&& cert[0] == 0x6A
    &&& cert[1] == 0x02
    &&& cert[11] == 0x01
    &&& cert[12] == 0x01
    &&& cert[cert.len() - 1] == 0xBC
    &&& sha1_of(cert.subrange(1, cert.len() - 21) + t92 + t9f32) == cert.subrange(
        cert.len() - 21,
        cert.len() - 1,
    )
    &&& spec_iin_matches_pan(cert.subrange(2, 6), t5a)
}

/// Recovers the issuer public key from tag `90` under the scheme CA key:
/// it succeeds exactly when the sizes fit the RSA primitive, openssl
/// accepts the arguments, and the recovered plaintext is a sound issuer
/// certificate.  On success the issuer modulus is the certificate's
/// leftmost digits followed by tag `92`, the exponent is tag `9F32`, and
/// the third component is the certificate's `MMYY` expiry bytes, for the
/// caller's expiry warning.
pub fn recover_issuer_public_key(
    ca_pk: &RsaPublicKey,
    t90: &[u8],
    t92: &[u8],
    t9f32: &[u8],
    t5a: &[u8],
) -> (r: Result<(Vec<u8>, Vec<u8>, Vec<u8>), ()>)
    ensures
        r is Ok <==> {
            &&& ca_pk.modulus@.len() <= 4096
            &&& t90@.len() <= 4096
            &&& rsa_public_decrypt_accepts(ca_pk.modulus@, ca_pk.exponent@, t90@)
            &&& spec_issuer_cert_valid(
                rsa_public_decrypt_of(ca_pk.modulus@, ca_pk.exponent@, t90@),
                ca_pk.modulus@.len() as int,
                t92@,
                t9f32@,
                t5a@,
            )
        },
        r matches Ok(p) ==> {
            let cert = rsa_public_decrypt_of(ca_pk.modulus@, ca_pk.exponent@, t90@);
            &&& p.0@ == cert.subrange(15, cert.len() - 21) + t92@
            &&& p.1@ == t9f32@
            &&& p.2@ == cert.subrange(6, 8)
        },
{
    let cert = match ca_pk.public_decrypt(t90) {
        Ok(c) => c,
        Err(()) => {
            return Err(());
        },
    };
    let clen = cert.len();
    if clen < 36 {
        return Err(());
    }
    if cert[1] != 0x02 || cert[11] != 0x01 || cert[12] != 0x01 {
        return Err(());
    }
    let checksum_position = clen - 21;
    let mut checksum_data = copy_range(cert.as_slice(), 1, checksum_position);
    append_bytes(&mut checksum_data, t92);
    append_bytes(&mut checksum_data, t9f32);
    let digest = sha1(checksum_data.as_slice());
    let stored = copy_range(cert.as_slice(), checksum_position, clen - 1);
    proof {
        assert(checksum_data@ =~= cert@.subrange(1, cert@.len() - 21) + t92@ + t9f32@);
    }
    if !bytes_eq(digest.as_slice(), stored.as_slice()) {
        return Err(());
    }
    let iin = copy_range(cert.as_slice(), 2, 6);
    let ascii_iin = match bcd_to_ascii(iin.as_slice()) {
        Ok(a) => a,
        Err(()) => {
            return Err(());
        },
    };
    let ascii_pan = match bcd_to_ascii(t5a) {
        Ok(a) => a,
        Err(()) => {
            return Err(());
        },
    };
    if ascii_iin.len() > ascii_pan.len() {
        return Err(());
    }
    let pan_prefix = copy_range(ascii_pan.as_slice(), 0, ascii_iin.len());
    if !bytes_eq(ascii_iin.as_slice(), pan_prefix.as_slice()) {
        return Err(());
    }
    let mut modulus = copy_range(cert.as_slice(), 15, checksum_position);
    append_bytes(&mut modulus, t92);
    let exponent = copy_range(t9f32, 0, t9f32.len());
    let expiry = copy_range(cert.as_slice(), 6, 8);
    proof {
        assert(t9f32@.subrange(0, t9f32@.len() as int) =~= t9f32@);
    }
    Ok((modulus, exponent, expiry))
}

/// The certificate's leftmost key digits with the trailing `BB` filler
/// bytes removed.
pub open spec fn spec_trim_trailing_bb(s: Seq<u8>) -> Seq<u8>
    decreases s.len(),
{
    if s.len() == 0 {
        s
    } else if s[s.len() - 1] == 0xBB {
        spec_trim_trailing_bb(s.take(s.len() - 1))
    } else {
        s
    }
}

/// A sound ICC certificate, as recovered under the issuer key of modulus
/// length `n_len`: the envelope, the type byte `04`, the algorithm
/// bytes, the hash over the certificate body followed by the key
/// remainder (tag `9F48`, when present), the exponent (tag `9F47`), the
/// data-authentication buffer and the expanded static-data tag list, and
/// the certificate PAN equal to the card's PAN (tag `5A`).
pub open spec fn spec_icc_cert_valid(
    cert: Seq<u8>,
    n_len: int,
    t9f48: Seq<u8>,
    t9f47: Seq<u8>,
    data_auth: Seq<u8>,
    sda_values: Seq<u8>,
    t5a: Seq<u8>,
) -> bool {
    &&& cert.len() == n_len
    &&& cert.len() >= 42
    &&& cert[0] == 0x6A
    &&& cert[1] == 0x04
    &&& cert[17] == 0x01
    &&& cert[18] == 0x01
    &&& cert[cert.len() - 1] == 0xBC
    &&& sha1_of(
        cert.subrange(1, cert.len() - 21) + t9f48 + t9f47 + data_auth + sda_values,
    ) == cert.subrange(cert.len() - 21, cert.len() - 1)
    &&& match (bcd_to_ascii_spec(cert.subrange(2, 12), false), bcd_to_ascii_spec(t5a, false)) {
        (Some(a), Some(p)) => a == p,
        _ => false,
    }
}

/// Recovers the ICC public key from tag `9F46` under the issuer key: it
/// succeeds exactly when the sizes fit the RSA primitive, openssl
/// accepts the arguments, and the recovered plaintext is a sound ICC
/// certificate.  On success the ICC modulus is the certificate's
/// leftmost digits, the trailing `BB` filler trimmed, followed by tag
/// `9F48`; the exponent is tag `9F47`; the third component is the
/// certificate's `MMYY` expiry bytes, for the caller's expiry warning.
/// An absent tag `9F48` is the empty byte string.
pub fn recover_icc_public_key(
    issuer_pk: &RsaPublicKey,
    t9f46: &[u8],
    t9f47: &[u8],
    t9f48: &[u8],
    data_auth: &[u8],
    sda_values: &[u8],
    t5a: &[u8],
) -> (r: Result<(Vec<u8>, Vec<u8>, Vec<u8>), ()>)
    ensures
        r is Ok <==> {
            &&& issuer_pk.modulus@.len() <= 4096
            &&& t9f46@.len() <= 4096
            &&& rsa_public_decrypt_accepts(issuer_pk.modulus@, issuer_pk.exponent@, t9f46@)
            &&& spec_icc_cert_valid(
                rsa_public_decrypt_of(issuer_pk.modulus@, issuer_pk.exponent@, t9f46@),
                issuer_pk.modulus@.len() as int,
                t9f48@,
                t9f47@,
                data_auth@,
                sda_values@,
                t5a@,
            )
        },
        r matches Ok(p) ==> {
            let cert = rsa_public_decrypt_of(issuer_pk.modulus@, issuer_pk.exponent@, t9f46@);
            &&& p.0@ == spec_trim_trailing_bb(cert.subrange(21, cert.len() - 21)) + t9f48@
            &&& p.1@ == t9f47@
            &&& p.2@ == cert.subrange(12, 14)
        },
{
    let cert = match issuer_pk.public_decrypt(t9f46) {
        Ok(c) => c,
        Err(()) => {
            return Err(());
        },
    };
    let clen = cert.len();
    if clen < 42 {
        return Err(());
    }
    if cert[1] != 0x04 || cert[17] != 0x01 || cert[18] != 0x01 {
        return Err(());
    }
    let checksum_position = clen - 21;
    let mut checksum_data = copy_range(cert.as_slice(), 1, checksum_position);
    append_bytes(&mut checksum_data, t9f48);
    append_bytes(&mut checksum_data, t9f47);
    append_bytes(&mut checksum_data, data_auth);
    append_bytes(&mut checksum_data, sda_values);
    let digest = sha1(checksum_data.as_slice());
    let stored = copy_range(cert.as_slice(), checksum_position, clen - 1);
    proof {
        assert(checksum_data@ =~= cert@.subrange(1, cert@.len() - 21) + t9f48@ + t9f47@
            + data_auth@ + sda_values@);
    }
    if !bytes_eq(digest.as_slice(), stored.as_slice()) {
        return Err(());
    }
    let cert_pan = copy_range(cert.as_slice(), 2, 12);
    let ascii_cert_pan = match bcd_to_ascii(cert_pan.as_slice()) {
        Ok(a) => a,
        Err(()) => {
            return Err(());
        },
    };
    let ascii_pan = match bcd_to_ascii(t5a) {
        Ok(a) => a,
        Err(()) => {
            return Err(());
        },
    };
    if !bytes_eq(ascii_cert_pan.as_slice(), ascii_pan.as_slice()) {
        return Err(());
    }
    let leftmost = copy_range(cert.as_slice(), 21, checksum_position);
    let mut end = leftmost.len();
    proof {
        assert(leftmost@.subrange(0, leftmost@.len() as int) =~= leftmost@);
    }
    while end > 0 && leftmost[end - 1] == 0xBB
        invariant
            0 <= end <= leftmost@.len(),
            spec_trim_trailing_bb(leftmost@) == spec_trim_trailing_bb(
                leftmost@.subrange(0, end as int),
            ),
        decreases end,
    {
        proof {
            assert(leftmost@.subrange(0, end as int).take(end - 1) =~= leftmost@.subrange(
                0,
                end - 1,
            ));
        }
        end = end - 1;
    }
    proof {
        assert(leftmost@.subrange(0, leftmost@.len() as int) =~= leftmost@);
        if end > 0 {
            assert(spec_trim_trailing_bb(leftmost@.subrange(0, end as int)) == leftmost@.subrange(
                0,
                end as int,
            ));
        } else {
            assert(leftmost@.subrange(0, 0) =~= Seq::<u8>::empty());
        }
    }
    let mut modulus = copy_range(leftmost.as_slice(), 0, end);
    append_bytes(&mut modulus, t9f48);
    let exponent = copy_range(t9f47, 0, t9f47.len());
    let expiry = copy_range(cert.as_slice(), 12, 14);
    proof {
        assert(t9f47@.subrange(0, t9f47@.len() as int) =~= t9f47@);
    }
    Ok((modulus, exponent, expiry))
}

/// A well-formed Signed Dynamic Application Data envelope, as recovered
/// under the ICC key of modulus length `n_len`: the envelope, the type
/// byte `05`, the SHA-1 algorithm byte, and a dynamic-data length that
/// fits before the hash.  The hash itself is checked separately.
pub open spec fn spec_dynamic_sig_format_valid(cert: Seq<u8>, n_len: int) -> bool {
    &&& cert.len() == n_len
    &&& cert.len() >= 26
    &&& cert[0] == 0x6A
    &&& cert[1] == 0x05
    &&& cert[2] == 0x01
    &&& cert[cert.len() - 1] == 0xBC
    &&& 1 <= cert[3]
    &&& 4 + cert[3] <= cert.len() - 21
}

/// The hash of a Signed Dynamic Application Data envelope: SHA-1 over
/// the envelope body followed by the authentication data the terminal
/// sent.
pub open spec fn spec_dynamic_sig_hash_ok(cert: Seq<u8>, auth_data: Seq<u8>) -> bool {
    sha1_of(cert.subrange(1, cert.len() - 21) + auth_data) == cert.subrange(
        cert.len() - 21,
        cert.len() - 1,
    )
}

/// Recovers and checks the Signed Dynamic Application Data (tag `9F4B`)
/// under the ICC key: it succeeds exactly when the sizes fit the RSA
/// primitive, openssl accepts the arguments, and the recovered envelope
/// is well formed.  On success it hands back the ICC Dynamic Number
/// (the dynamic data without its leading length byte) and whether the
/// hash matched.
pub fn verify_dynamic_signature(icc_pk: &RsaPublicKey, t9f4b: &[u8], auth_data: &[u8]) -> (r:
    Result<(Vec<u8>, bool), ()>)
    ensures
        r is Ok <==> {
            &&& icc_pk.modulus@.len() <= 4096
            &&& t9f4b@.len() <= 4096
            &&& rsa_public_decrypt_accepts(icc_pk.modulus@, icc_pk.exponent@, t9f4b@)
            &&& spec_dynamic_sig_format_valid(
                rsa_public_decrypt_of(icc_pk.modulus@, icc_pk.exponent@, t9f4b@),
                icc_pk.modulus@.len() as int,
            )
        },
        r matches Ok(p) ==> {
            let cert = rsa_public_decrypt_of(icc_pk.modulus@, icc_pk.exponent@, t9f4b@);
            &&& p.0@ == cert.subrange(5, 4 + cert[3])
            &&& p.1 == spec_dynamic_sig_hash_ok(cert, auth_data@)
        },
{
    let cert = match icc_pk.public_decrypt(t9f4b) {
        Ok(c) => c,
        Err(()) => {
            return Err(());
        },
    };
    let clen = cert.len();
    if clen < 26 {
        return Err(());
    }
    if cert[1] != 0x05 || cert[2] != 0x01 {
        return Err(());
    }
    let dyn_len = cert[3] as usize;
    if dyn_len < 1 || 4 + dyn_len > clen - 21 {
        return Err(());
    }
    let dyn_number = copy_range(cert.as_slice(), 5, 4 + dyn_len);
    let checksum_position = clen - 21;
    let mut checksum_data = copy_range(cert.as_slice(), 1, checksum_position);
    append_bytes(&mut checksum_data, auth_data);
    let digest = sha1(checksum_data.as_slice());
    let stored = copy_range(cert.as_slice(), checksum_position, clen - 1);
    proof {
        assert(checksum_data@ =~= cert@.subrange(1, cert@.len() - 21) + auth_data@);
    }
    let hash_ok = bytes_eq(digest.as_slice(), stored.as_slice());
    Ok((dyn_number, hash_ok))
}

/// Days from a fixed epoch to a Gregorian calendar date (year, month,
/// day), for years from 1583 on.
pub open spec fn spec_days_from_civil(y: int, m: int, d: int) -> int {
    let y2 = if m <= 2 {
        y - 1
    } else {
        y
    };
    let era = y2 / 400;
    let yoe = y2 - era * 400;
    let mp = if m > 2 {
        m - 3
    } else {
        m + 9
    };
    let doy = (153 * mp + 2) / 5 + d - 1;
    let doe = yoe * 365 + yoe / 4 - yoe / 100 + doy;
    era * 146097 + doe - 719468
}

/// The expiry month and year a two-byte BCD `MMYY` value spells, when its
/// nibbles are digits and the month is a calendar month.
pub open spec fn spec_expiry_month_year(b: Seq<u8>) -> Option<(int, int)> {
    if b.len() == 2 && b[0] / 16 <= 9 && b[0] % 16 <= 9 && b[1] / 16 <= 9 && b[1] % 16 <= 9 {
        let m = (b[0] / 16) * 10 + b[0] % 16;
        let y = 2000 + (b[1] / 16) * 10 + b[1] % 16;
        if 1 <= m <= 12 {
            Some((m as int, y as int))
        } else {
            None
        }
    } else {
        None
    }
}

/// Expired on a given day: the certificate's `MMYY` expiry, taken as day
/// 01 of month `MM` of year `20YY`, lies more than 30 days in the past.
/// A value that spells no date counts as expired.
pub open spec fn spec_is_expired(b: Seq<u8>, y: int, m: int, d: int) -> bool {
    match spec_expiry_month_year(b) {
        None => true,
        Some((em, ey)) => spec_days_from_civil(y, m, d) - spec_days_from_civil(ey, em, 1) > 30,
    }
}

/// Days from the epoch, in executable code.
fn days_from_civil(y: u32, m: u32, d: u32) -> (r: i64)
    requires
        1583 <= y <= 9999,
        1 <= m <= 12,
        1 <= d <= 31,
    ensures
        r as int == spec_days_from_civil(y as int, m as int, d as int),
{
    let y2: u32 = if m <= 2 {
        y - 1
    } else {
        y
    };
    let era: u32 = y2 / 400;
    let yoe: u32 = y2 - era * 400;
    let mp: u32 = if m > 2 {
        m - 3
    } else {
        m + 9
    };
    let doy: u32 = (153 * mp + 2) / 5 + d - 1;
    let doe: u32 = yoe * 365 + yoe / 4 - yoe / 100 + doy;
    (era as i64) * 146097 + (doe as i64) - 719468
}

/// Whether a certificate `MMYY` expiry lies more than 30 days before the
/// given day.  The grace period and the day-01 reading follow EMV
/// practice; a value that spells no date counts as expired.
pub fn is_expired_on(date_bcd: &[u8], y: u32, m: u32, d: u32) -> (r: bool)
    requires
        1583 <= y <= 9999,
        1 <= m <= 12,
        1 <= d <= 31,
    ensures
        r == spec_is_expired(date_bcd@, y as int, m as int, d as int),
{
    if date_bcd.len() != 2 {
        return true;
    }
    let b0 = date_bcd[0];
    let b1 = date_bcd[1];
    if b0 / 16 > 9 || b0 % 16 > 9 || b1 / 16 > 9 || b1 % 16 > 9 {
        return true;
    }
    let em: u32 = (b0 / 16) as u32 * 10 + (b0 % 16) as u32;
    let ey: u32 = 2000 + (b1 / 16) as u32 * 10 + (b1 % 16) as u32;
    if em < 1 || em > 12 {
        return true;
    }
    let today_days = days_from_civil(y, m, d);
    let expiry_days = days_from_civil(ey, em, 1);
    today_days - expiry_days > 30
}

/// Relies on chrono's `Utc::now` and the `Datelike` accessors: the
/// current UTC date.  `NaiveDate` keeps its month in 1 to 12 and its day
/// in 1 to 31; nothing more is promised of the clock.
#[verifier::external_body]
pub(crate) fn today_utc() -> (r: (i32, u8, u8))
    ensures
        1 <= r.1 <= 12,
        1 <= r.2 <= 31,
{
    let d = chrono::Utc::now().date_naive();
    (d.year(), d.month() as u8, d.day() as u8)
}

/// Whether a certificate `MMYY` expiry lies more than 30 days in the
/// past of the host clock.  Expiry is a warning, never a failure; the
/// exact reading of the date is stated by `is_expired_on`, which this
/// function applies to the day the clock returned.
pub fn is_certificate_expired(date_bcd: &[u8]) -> (r: bool) {
    let (y, m, d) = today_utc();
    if y < 1583 || y > 9999 {
        return false;
    }
    is_expired_on(date_bcd, y as u32, m as u32, d as u32)
}

} // verus!
