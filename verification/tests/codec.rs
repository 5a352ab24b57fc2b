//! Unit tests for the codecs: BCD, BER-TLV, the tag store, the tag-list
//! expander, the TVR and CVM encodings.

use emvpt::bcd::{ascii_to_bcd_cn, bcd_to_ascii};
use emvpt::dol::expand_tag_list;
use emvpt::icc::{
    bcd_amount, capabilities_from_aip, cvm_rules_from_8e, usage_from_9f07, CvmCode,
    CvmConditionCode, CvmRule,
};
use emvpt::is_success_response;
use emvpt::store::TagStore;
use emvpt::tlv::{encode_tlv, parse_tlv, parse_tlv_at, tag_is_constructed};
use emvpt::tvr::TerminalVerificationResults;

#[test]
fn bcd_round_trip_even() {
    let packed = ascii_to_bcd_cn(b"123456", 3).unwrap();
    assert_eq!(packed, vec![0x12, 0x34, 0x56]);
    assert_eq!(bcd_to_ascii(&packed).unwrap(), b"123456".to_vec());
}

#[test]
fn bcd_round_trip_padded() {
    let packed = ascii_to_bcd_cn(b"1234", 6).unwrap();
    assert_eq!(packed, vec![0x12, 0x34, 0xFF, 0xFF, 0xFF, 0xFF]);
    assert_eq!(bcd_to_ascii(&packed).unwrap(), b"1234".to_vec());
}

#[test]
fn bcd_round_trip_odd() {
    let packed = ascii_to_bcd_cn(b"12345", 3).unwrap();
    assert_eq!(packed, vec![0x12, 0x34, 0x5F]);
    assert_eq!(bcd_to_ascii(&packed).unwrap(), b"12345".to_vec());
}

#[test]
fn bcd_rejects_non_digits() {
    assert!(ascii_to_bcd_cn(b"12a4", 3).is_err());
    assert!(ascii_to_bcd_cn(b"1234567", 3).is_err());
    assert!(bcd_to_ascii(&[0x1A]).is_err());
    assert!(bcd_to_ascii(&[0xF1]).is_err());
    assert!(bcd_to_ascii(&[0x1F, 0x22]).is_err());
}

#[test]
fn bcd_empty() {
    assert_eq!(ascii_to_bcd_cn(b"", 2).unwrap(), vec![0xFF, 0xFF]);
    assert_eq!(bcd_to_ascii(&[0xFF, 0xFF]).unwrap(), Vec::<u8>::new());
}

#[test]
fn tlv_parse_one_byte_tag() {
    let buf = [0x88u8, 0x01, 0x05, 0x99];
    let (tag, value, n) = parse_tlv(&buf).unwrap();
    assert_eq!(tag, 0x88);
    assert_eq!(value, vec![0x05]);
    assert_eq!(n, 3);
}

#[test]
fn tlv_parse_two_byte_tag() {
    let buf = [0x9Fu8, 0x37, 0x04, 0x01, 0x23, 0x45, 0x67];
    let (tag, value, n) = parse_tlv(&buf).unwrap();
    assert_eq!(tag, 0x9F37);
    assert_eq!(value, vec![0x01, 0x23, 0x45, 0x67]);
    assert_eq!(n, 7);
}

#[test]
fn tlv_parse_long_length() {
    let mut buf = vec![0x90u8, 0x81, 0xB0];
    buf.extend(std::iter::repeat(0xAB).take(0xB0));
    let (tag, value, n) = parse_tlv(&buf).unwrap();
    assert_eq!(tag, 0x90);
    assert_eq!(value.len(), 0xB0);
    assert_eq!(n, buf.len());
}

#[test]
fn tlv_rejects_truncated_and_non_minimal() {
    assert!(parse_tlv(&[0x88u8, 0x05, 0x01]).is_none());
    // a long form spelling a short length is not minimal
    assert!(parse_tlv(&[0x88u8, 0x81, 0x01, 0x05]).is_none());
    assert!(parse_tlv(&[0x00u8, 0x01, 0x05]).is_none());
}

#[test]
fn tlv_round_trip_concrete() {
    // parse then re-encode by tag || length || value: the original bytes
    let frames: Vec<Vec<u8>> = vec![
        vec![0x88, 0x01, 0x05],
        vec![0x9F, 0x37, 0x04, 0x01, 0x23, 0x45, 0x67],
        {
            let mut v = vec![0x90u8, 0x81, 0x80];
            v.extend(std::iter::repeat(0x11).take(0x80));
            v
        },
    ];
    for frame in frames {
        let (tag, value, n) = parse_tlv(&frame).unwrap();
        assert_eq!(n, frame.len());
        assert_eq!(encode_tlv(tag, &value), frame);
    }
}

#[test]
fn tlv_constructed_round_trip() {
    // a constructed template reproduces under the same rule recursively
    let inner = vec![0x4Fu8, 0x02, 0xAA, 0xBB, 0x50, 0x01, 0x41];
    let mut outer = vec![0x61u8, inner.len() as u8];
    outer.extend_from_slice(&inner);
    let (tag, value, n) = parse_tlv(&outer).unwrap();
    assert_eq!(tag, 0x61);
    assert!(tag_is_constructed(tag));
    assert_eq!(n, outer.len());
    assert_eq!(encode_tlv(tag, &value), outer);
    let (t1, v1, n1) = parse_tlv_at(&value, 0).unwrap();
    assert_eq!(encode_tlv(t1, &v1), inner[0..n1].to_vec());
    let (t2, v2, n2) = parse_tlv_at(&value, n1).unwrap();
    assert_eq!(encode_tlv(t2, &v2), inner[n1..n1 + n2].to_vec());
    assert_eq!(n1 + n2, inner.len());
}

#[test]
fn store_put_get_overwrite() {
    let mut store = TagStore::new();
    assert!(store.get(0x5A).is_none());
    store.put(0x5A, vec![0x12, 0x34]);
    assert_eq!(store.get(0x5A).unwrap(), &vec![0x12, 0x34]);
    store.put(0x5A, vec![0x56]);
    assert_eq!(store.get(0x5A).unwrap(), &vec![0x56]);
    store.clear();
    assert!(store.get(0x5A).is_none());
}

#[test]
fn store_absorbs_tlv_and_drops_tag_80() {
    let mut store = TagStore::new();
    // a run with a primitive `80` frame and a constructed `70` template
    let buf = [
        0x80u8, 0x02, 0xDE, 0xAD, // primitive 80: never stored
        0x70, 0x06, 0x5A, 0x01, 0x42, 0x87, 0x01, 0x01, // 5A and 87 inside 70
        0x88, 0x01, 0x07,
    ];
    store.absorb_tlv(&buf);
    assert!(store.get(0x80).is_none());
    assert_eq!(store.get(0x5A).unwrap(), &vec![0x42]);
    assert_eq!(store.get(0x87).unwrap(), &vec![0x01]);
    assert_eq!(store.get(0x88).unwrap(), &vec![0x07]);
}

#[test]
fn expander_orders_and_checks_lengths() {
    let mut store = TagStore::new();
    store.put(0x9F02, vec![0x00, 0x00, 0x00, 0x00, 0x15, 0x00]);
    store.put(0x95, vec![0, 0, 0, 0, 0]);
    store.put(0x9F37, vec![0x01, 0x23, 0x45, 0x67]);
    let list = [0x9Fu8, 0x02, 0x06, 0x95, 0x05, 0x9F, 0x37, 0x04];
    let out = expand_tag_list(&store, &list).unwrap();
    // output length is the sum of the listed lengths, in list order
    assert_eq!(out.len(), 6 + 5 + 4);
    assert_eq!(&out[0..6], &[0x00, 0x00, 0x00, 0x00, 0x15, 0x00]);
    assert_eq!(&out[6..11], &[0, 0, 0, 0, 0]);
    assert_eq!(&out[11..15], &[0x01, 0x23, 0x45, 0x67]);
    // a missing tag fails
    assert!(expand_tag_list(&store, &[0x9Fu8, 0x03, 0x06]).is_err());
    // a length mismatch fails
    assert!(expand_tag_list(&store, &[0x95u8, 0x04]).is_err());
    // the one-byte shorthand takes the stored value whole
    assert_eq!(expand_tag_list(&store, &[0x95u8]).unwrap(), vec![0, 0, 0, 0, 0]);
}

#[test]
fn tvr_all_clear_and_single_flags() {
    let tvr = TerminalVerificationResults::new();
    assert_eq!(tvr.to_bytes(), vec![0, 0, 0, 0, 0]);
    // setting only one flag sets only its defined bit
    let mut t = TerminalVerificationResults::new();
    t.dda_failed = true;
    assert_eq!(t.to_bytes(), vec![0x08, 0, 0, 0, 0]);
    let mut t = TerminalVerificationResults::new();
    t.expired_application = true;
    assert_eq!(t.to_bytes(), vec![0, 0x40, 0, 0, 0]);
    let mut t = TerminalVerificationResults::new();
    t.cardholder_verification_was_not_successful = true;
    assert_eq!(t.to_bytes(), vec![0, 0, 0x80, 0, 0]);
    let mut t = TerminalVerificationResults::new();
    t.transaction_exceeds_floor_limit = true;
    assert_eq!(t.to_bytes(), vec![0, 0, 0, 0x80, 0]);
    let mut t = TerminalVerificationResults::new();
    t.script_processing_failed_after_final_generate_ac = true;
    assert_eq!(t.to_bytes(), vec![0, 0, 0, 0, 0x10]);
    // flags are independent: two flags give the sum of their bits
    let mut t = TerminalVerificationResults::new();
    t.offline_data_authentication_was_not_performed = true;
    t.cda_failed = true;
    assert_eq!(t.to_bytes(), vec![0x84, 0, 0, 0, 0]);
}

#[test]
fn cvm_results_9f34() {
    let rule = CvmRule {
        amount_x: 0,
        amount_y: 0,
        fail_if_unsuccessful: false,
        code: CvmCode::EncipheredPinOffline,
        condition: CvmConditionCode::CvmSupported,
    };
    // a successful enciphered offline PIN: 44 03 02
    assert_eq!(CvmRule::into_9f34_value(Ok(rule)), vec![0x44, 0x03, 0x02]);
    // the same rule failed: result byte 01
    assert_eq!(CvmRule::into_9f34_value(Err(rule)), vec![0x44, 0x03, 0x01]);
    // a signature rule: result unknown
    let sig = CvmRule { code: CvmCode::Signature, ..rule };
    assert_eq!(CvmRule::into_9f34_value(Ok(sig)), vec![0x5E, 0x03, 0x00]);
    // fail_if_unsuccessful keeps bit 6 clear
    let strict = CvmRule { fail_if_unsuccessful: true, ..rule };
    assert_eq!(CvmRule::into_9f34_value(Ok(strict)), vec![0x04, 0x03, 0x02]);
}

#[test]
fn cvm_list_decoding() {
    // X = 0, Y = 100, rules: plaintext PIN (apply next on failure),
    // signature (fail on failure)
    let list = [
        0x00u8, 0x00, 0x00, 0x00, 0x00, 0x00, 0x01, 0x00, 0x41, 0x03, 0x1E, 0x00,
    ];
    let rules = cvm_rules_from_8e(&list).unwrap();
    assert_eq!(rules.len(), 2);
    assert_eq!(rules[0].amount_x, 0);
    assert_eq!(rules[0].amount_y, 100);
    assert!(!rules[0].fail_if_unsuccessful);
    assert!(matches!(rules[0].code, CvmCode::PlaintextPin));
    assert!(matches!(rules[0].condition, CvmConditionCode::CvmSupported));
    assert!(rules[1].fail_if_unsuccessful);
    assert!(matches!(rules[1].code, CvmCode::Signature));
    assert!(matches!(rules[1].condition, CvmConditionCode::Always));
    // an unknown method code fails
    assert!(cvm_rules_from_8e(&[
        0x00u8, 0x00, 0x00, 0x00, 0x00, 0x00, 0x01, 0x00, 0x06, 0x00
    ])
    .is_err());
    // an odd rule area fails
    assert!(cvm_rules_from_8e(&[
        0x00u8, 0x00, 0x00, 0x00, 0x00, 0x00, 0x01, 0x00, 0x41
    ])
    .is_err());
    // a short list fails
    assert!(cvm_rules_from_8e(&[0x00u8, 0x00]).is_err());
    // a bad amount nibble fails
    assert!(cvm_rules_from_8e(&[
        0x0Au8, 0x00, 0x00, 0x00, 0x00, 0x00, 0x01, 0x00
    ])
    .is_err());
}

#[test]
fn bcd_amounts() {
    assert_eq!(bcd_amount(&[0x00, 0x00, 0x01, 0x00]).unwrap(), 100);
    assert_eq!(bcd_amount(&[0x99, 0x99, 0x99, 0x99]).unwrap(), 99_999_999);
    assert!(bcd_amount(&[0x0A, 0x00, 0x00, 0x00]).is_err());
}

#[test]
fn aip_and_usage_bits() {
    // 5C = 0101_1100: SDA, cardholder verification, risk management,
    // issuer authentication; no DDA, no CDA
    let caps = capabilities_from_aip(0x5C);
    assert!(caps.sda);
    assert!(!caps.dda);
    assert!(caps.terminal_risk_management);
    assert!(caps.issuer_authentication);
    assert!(!caps.cda);
    let caps = capabilities_from_aip(0x21);
    assert!(caps.dda);
    assert!(caps.cda);
    let usage = usage_from_9f07(0xFF, 0x00);
    assert!(usage.domestic_cash_transactions);
    assert!(usage.terminals_other_than_atms);
    assert!(!usage.domestic_cashback);
    let usage = usage_from_9f07(0x00, 0xC0);
    assert!(usage.domestic_cashback);
    assert!(usage.international_cashback);
    assert!(!usage.atms);
}

#[test]
fn success_trailer() {
    assert!(is_success_response(&vec![0x90, 0x00]));
    assert!(!is_success_response(&vec![0x63, 0xC4]));
    assert!(!is_success_response(&vec![0x6A, 0x82]));
    assert!(!is_success_response(&vec![0x90]));
}
