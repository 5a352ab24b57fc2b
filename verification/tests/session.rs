//! Session tests: a scripted transport answers the terminal's APDUs, so
//! each protocol step can be checked command for command.

use emvpt::apdu::ApduTransport;
use emvpt::connection::{EmvApplication, EmvConnection, Settings, Terminal};
use emvpt::icc::Capabilities;
use emvpt::rsa::{CaCertificate, CertificateAuthority, RsaPublicKey};
use emvpt::tvr::TerminalVerificationResults;
use openssl::rsa::{Padding, Rsa};

/// Answers from a fixed request → response table; anything else gets
/// `6A 82` (file not found).  Every command is logged.
struct ScriptTransport {
    script: Vec<(Vec<u8>, Vec<u8>)>,
    pin_ok: bool,
    log: Vec<Vec<u8>>,
}

impl ApduTransport for ScriptTransport {
    fn send_apdu_raw(&mut self, apdu: &[u8]) -> Result<Vec<u8>, ()> {
        self.log.push(apdu.to_vec());
        for (req, res) in &self.script {
            if req.as_slice() == apdu {
                return Ok(res.clone());
            }
        }
        if self.pin_ok && apdu.len() >= 4 && apdu[0] == 0x00 && apdu[1] == 0x20 {
            return Ok(vec![0x90, 0x00]);
        }
        Ok(vec![0x6A, 0x82])
    }
}

fn terminal_settings() -> Settings {
    Settings {
        terminal: Terminal {
            use_random: false,
            capabilities: Capabilities {
                sda: false,
                dda: true,
                cda: false,
                plaintext_pin: true,
                enciphered_pin: true,
                terminal_risk_management: false,
                issuer_authentication: false,
            },
            tvr: TerminalVerificationResults::new(),
        },
        default_tags: Vec::new(),
    }
}

fn connect(script: Vec<(Vec<u8>, Vec<u8>)>) -> EmvConnection<ScriptTransport> {
    connect_with(script, Vec::new())
}

fn connect_with(
    script: Vec<(Vec<u8>, Vec<u8>)>,
    ca_data: Vec<CertificateAuthority>,
) -> EmvConnection<ScriptTransport> {
    EmvConnection::new(
        ScriptTransport {
            script,
            pin_ok: true,
            log: Vec::new(),
        },
        terminal_settings(),
        ca_data,
    )
}

/// One TLV frame: tag bytes, minimal length, value.
fn tlv(tag: &[u8], value: &[u8]) -> Vec<u8> {
    let mut out = tag.to_vec();
    let n = value.len();
    if n < 0x80 {
        out.push(n as u8);
    } else if n < 0x100 {
        out.push(0x81);
        out.push(n as u8);
    } else {
        out.push(0x82);
        out.push((n / 0x100) as u8);
        out.push((n % 0x100) as u8);
    }
    out.extend_from_slice(value);
    out
}

fn with_trailer(mut data: Vec<u8>, sw1: u8, sw2: u8) -> Vec<u8> {
    data.push(sw1);
    data.push(sw2);
    data
}

const SELECT_PSE: &[u8] = &[
    0x00, 0xA4, 0x04, 0x00, 0x0E, 0x31, 0x50, 0x41, 0x59, 0x2E, 0x53, 0x59, 0x53, 0x2E, 0x44,
    0x44, 0x46, 0x30, 0x31,
];

#[test]
fn pse_enumeration() {
    // the spec'd exchange: SELECT PSE, then two READ RECORDs
    let fci = tlv(&[0x6F], &tlv(&[0x88], &[0x01]));
    let record = tlv(
        &[0x70],
        &{
            let mut inner = Vec::new();
            inner.extend(tlv(
                &[0x61],
                &{
                    let mut t = Vec::new();
                    t.extend(tlv(&[0x4F], &[0xA0, 0x00, 0x00, 0x00, 0x04, 0x10, 0x10]));
                    t.extend(tlv(&[0x50], b"MASTERCARD"));
                    t.extend(tlv(&[0x87], &[0x01]));
                    t
                },
            ));
            inner
        },
    );
    let script = vec![
        (SELECT_PSE.to_vec(), with_trailer(fci, 0x90, 0x00)),
        (
            vec![0x00, 0xB2, 0x01, 0x0C, 0x00],
            with_trailer(record, 0x90, 0x00),
        ),
        (vec![0x00, 0xB2, 0x02, 0x0C, 0x00], vec![0x6A, 0x83]),
    ];
    let mut conn = connect(script);
    let apps = conn.handle_select_payment_system_environment().unwrap();
    assert_eq!(apps.len(), 1);
    assert_eq!(apps[0].aid, vec![0xA0, 0x00, 0x00, 0x00, 0x04, 0x10, 0x10]);
    assert_eq!(apps[0].label, b"MASTERCARD".to_vec());
    assert_eq!(apps[0].priority, vec![0x01]);
}

#[test]
fn pse_application_without_priority_is_skipped() {
    let fci = tlv(&[0x6F], &tlv(&[0x88], &[0x01]));
    let record = tlv(
        &[0x70],
        &tlv(
            &[0x61],
            &{
                let mut t = Vec::new();
                t.extend(tlv(&[0x4F], &[0xA0, 0x00, 0x00, 0x00, 0x04, 0x10, 0x10]));
                t.extend(tlv(&[0x50], b"MASTERCARD"));
                t
            },
        ),
    );
    let script = vec![
        (SELECT_PSE.to_vec(), with_trailer(fci, 0x90, 0x00)),
        (
            vec![0x00, 0xB2, 0x01, 0x0C, 0x00],
            with_trailer(record, 0x90, 0x00),
        ),
    ];
    let mut conn = connect(script);
    // the only application has no priority tag, so none are returned
    assert!(conn.handle_select_payment_system_environment().is_err());
}

/// The GPO scenario: template `80` response `80 06 5C 00 08 01 01 00`,
/// and the AFL walk it names: one READ RECORD of SFI 1, record 1, with
/// no records counted for authentication.
#[test]
fn gpo_template_80_and_afl_traversal() {
    let record = tlv(&[0x70], &{
        let mut t = Vec::new();
        t.extend(tlv(&[0x9F, 0x07], &[0xFF, 0x00]));
        t.extend(tlv(
            &[0x8E],
            &[0x00, 0x00, 0x00, 0x00, 0x00, 0x00, 0x01, 0x00, 0x41, 0x03, 0x1E, 0x00],
        ));
        t.extend(tlv(&[0x8C], &[0x9F, 0x37, 0x04]));
        t.extend(tlv(&[0x9F, 0x4A], &[0x82]));
        t
    });
    let script = vec![
        (
            vec![0x80, 0xA8, 0x00, 0x00, 0x02, 0x83, 0x00],
            vec![0x80, 0x06, 0x5C, 0x00, 0x08, 0x01, 0x01, 0x00, 0x90, 0x00],
        ),
        (
            vec![0x00, 0xB2, 0x01, 0x0C, 0x00],
            with_trailer(record, 0x90, 0x00),
        ),
    ];
    let mut conn = connect(script);
    let data_auth = conn.handle_get_processing_options().unwrap();
    // the template-80 split: 82 = 5C 00 and 94 = 08 01 01 00
    assert_eq!(conn.get_tag_value(0x82).unwrap(), &vec![0x5C, 0x00]);
    assert_eq!(
        conn.get_tag_value(0x94).unwrap(),
        &vec![0x08, 0x01, 0x01, 0x00]
    );
    // no records were counted for authentication: the buffer is empty
    assert!(data_auth.is_empty());
    // exactly one READ RECORD went out: SFI 1, record 1
    let reads: Vec<&Vec<u8>> = conn
        .interface
        .log
        .iter()
        .filter(|c| c.len() >= 2 && c[1] == 0xB2)
        .collect();
    assert_eq!(reads.len(), 1);
    assert_eq!(reads[0], &vec![0x00, 0xB2, 0x01, 0x0C, 0x00]);
    // the AIP was decoded into the ICC capabilities
    assert!(conn.icc.capabilities.sda);
    assert!(!conn.icc.capabilities.dda);
    assert_eq!(conn.icc.cvm_rules.len(), 2);
    assert_eq!(conn.icc.cvm_rules[0].amount_y, 100);
}

/// The DDA fallback scenario: no DDOL (tag `9F49`), so the default
/// `9F 37 04` drives INTERNAL AUTHENTICATE with the unpredictable
/// number.
#[test]
fn dda_fallback_ddol_command() {
    let mut conn = connect(Vec::new());
    conn.add_tag(0x9F37, vec![0x01, 0x23, 0x45, 0x67]);
    // the card rejects the command; only the emitted bytes matter here
    let _ = conn.handle_dynamic_data_authentication(&[0x01], &[0x03]);
    assert_eq!(
        conn.interface.log[0],
        vec![0x00, 0x88, 0x00, 0x00, 0x04, 0x01, 0x23, 0x45, 0x67, 0x00]
    );
}

/// The GENERATE AC scenario: an all-zero TVR, the spec'd CDOL, and the
/// wired tag values; the request carries P1 = 40 and the summed CDOL
/// lengths.
#[test]
fn generate_ac_command_layout() {
    let mut conn = connect(Vec::new());
    let cdol = vec![
        0x9Fu8, 0x02, 0x06, 0x9F, 0x03, 0x06, 0x9F, 0x1A, 0x02, 0x95, 0x05, 0x5F, 0x2A, 0x02,
        0x9A, 0x03, 0x9C, 0x01, 0x9F, 0x37, 0x04,
    ];
    conn.add_tag(0x8C, cdol);
    conn.add_tag(0x9F02, vec![0x00, 0x00, 0x00, 0x00, 0x15, 0x00]);
    conn.add_tag(0x9F03, vec![0x00, 0x00, 0x00, 0x00, 0x00, 0x00]);
    conn.add_tag(0x9F1A, vec![0x02, 0x46]);
    conn.add_tag(0x5F2A, vec![0x09, 0x78]);
    conn.add_tag(0x9A, vec![0x20, 0x07, 0x24]);
    conn.add_tag(0x9C, vec![0x00]);
    conn.add_tag(0x9F37, vec![0x01, 0x23, 0x45, 0x67]);
    let _ = conn.handle_generate_ac();
    let cmd = &conn.interface.log[0];
    // header: CLA 80, INS AE, P1 40 (TC / proceed offline), P2 00
    assert_eq!(&cmd[0..4], &[0x80, 0xAE, 0x40, 0x00]);
    // Lc: the sum of the CDOL lengths
    let lc = 6 + 6 + 2 + 5 + 2 + 3 + 1 + 4;
    assert_eq!(cmd[4] as usize, lc);
    assert_eq!(cmd.len(), 5 + lc + 1);
    assert_eq!(cmd[cmd.len() - 1], 0x00);
    // the request data holds the wired values in CDOL order; the TVR
    // (all-zero) was encoded into tag 95 before expansion
    let data = &cmd[5..5 + lc];
    assert_eq!(&data[0..6], &[0x00, 0x00, 0x00, 0x00, 0x15, 0x00]);
    assert_eq!(&data[12..14], &[0x02, 0x46]);
    assert_eq!(&data[14..19], &[0x00, 0x00, 0x00, 0x00, 0x00]);
    assert_eq!(&data[19..21], &[0x09, 0x78]);
    assert_eq!(&data[lc - 4..], &[0x01, 0x23, 0x45, 0x67]);
}

#[test]
fn send_apdu_follows_61_and_6c() {
    // GET DATA first answered 6C 05 (wrong length), then with a 61 04
    // continuation
    let script = vec![
        (vec![0x80, 0xCA, 0x9F, 0x36, 0x05], vec![0x6C, 0x06]),
        (
            vec![0x80, 0xCA, 0x9F, 0x36, 0x06],
            vec![0x9F, 0x36, 0x02, 0x61, 0x02],
        ),
        (
            vec![0x00, 0xC0, 0x00, 0x00, 0x02],
            vec![0x00, 0x2A, 0x90, 0x00],
        ),
    ];
    let mut conn = connect(script);
    let data = conn.handle_get_data(&[0x9F, 0x36]).unwrap();
    assert_eq!(data, vec![0x9F, 0x36, 0x02, 0x00, 0x2A]);
    assert_eq!(conn.get_tag_value(0x9F36).unwrap(), &vec![0x00, 0x2A]);
}

fn private_encrypt(key: &Rsa<openssl::pkey::Private>, plaintext: &[u8]) -> Vec<u8> {
    let mut out = vec![0u8; plaintext.len() + 16];
    let n = key
        .private_encrypt(plaintext, &mut out, Padding::NONE)
        .unwrap();
    out.truncate(n);
    out
}

/// The whole purchase transaction against a synthesized card: directory
/// enumeration, application selection, processing options with the AFL
/// walk, issuer and ICC key recovery, dynamic data authentication, both
/// PIN verifications and the final cryptogram request.
#[test]
fn test_purchase_transaction() {
    let aid = vec![0xA0u8, 0x00, 0x00, 0x00, 0x04, 0x10, 0x10];
    let pan = vec![0x12u8, 0x34, 0x56, 0x00, 0x12, 0x34, 0x56, 0x08];

    // keys: a 1408-bit scheme CA, a 1408-bit issuer, a 1024-bit ICC
    let ca_key = Rsa::generate(1408).unwrap();
    let issuer_key = Rsa::generate(1408).unwrap();
    let icc_key = Rsa::generate(1024).unwrap();
    let issuer_n = issuer_key.n().to_vec();
    let issuer_e = issuer_key.e().to_vec();
    let icc_n = icc_key.n().to_vec();
    let icc_e = icc_key.e().to_vec();

    let ca_table = vec![CertificateAuthority {
        rid: aid[0..5].to_vec(),
        certificates: vec![CaCertificate {
            index: vec![0x92],
            key: RsaPublicKey::new(&ca_key.n().to_vec(), &ca_key.e().to_vec()),
        }],
    }];

    // record 1 (counted for authentication) carries the card profile
    let record1_value = {
        let mut t = Vec::new();
        t.extend(tlv(&[0x5A], &pan));
        t.extend(tlv(&[0x8F], &[0x92]));
        t.extend(tlv(&[0x9F, 0x32], &issuer_e));
        t.extend(tlv(&[0x9F, 0x07], &[0xFF, 0x00]));
        t.extend(tlv(
            &[0x8E],
            &[0x00, 0x00, 0x00, 0x00, 0x00, 0x00, 0x01, 0x00, 0x41, 0x03, 0x1E, 0x00],
        ));
        t.extend(tlv(&[0x8C], &[0x9F, 0x37, 0x04]));
        t.extend(tlv(&[0x9F, 0x4A], &[0x82]));
        t
    };
    let record1 = tlv(&[0x70], &record1_value);
    let data_auth = record1_value.clone();
    let sda_values = vec![0x3C_u8, 0x00]; // the AIP bytes, tag 82

    // the issuer certificate under the CA key
    let t92 = issuer_n[176 - 36..].to_vec();
    let issuer_cert = {
        let leftmost_len = 176 - 36;
        let mut pt = vec![0x6A, 0x02, 0x12, 0x34, 0x56, 0x00, 0x12, 0x49, 0x00, 0x00, 0x01];
        pt.push(0x01);
        pt.push(0x01);
        pt.push(issuer_n.len() as u8);
        pt.push(issuer_e.len() as u8);
        pt.extend_from_slice(&issuer_n[0..leftmost_len]);
        let mut hashed = pt[1..].to_vec();
        hashed.extend_from_slice(&t92);
        hashed.extend_from_slice(&issuer_e);
        pt.extend_from_slice(&openssl::sha::sha1(&hashed));
        pt.push(0xBC);
        pt
    };
    let t90 = private_encrypt(&ca_key, &issuer_cert);

    // the ICC certificate under the issuer key, hashing in the
    // data-authentication buffer and the expanded static-data tag list
    let icc_cert = {
        let mut pt = vec![0x6A, 0x04];
        pt.extend_from_slice(&pan);
        pt.extend_from_slice(&[0xFF, 0xFF]); // PAN padded to ten bytes
        pt.extend_from_slice(&[0x12, 0x49, 0x00, 0x00, 0x02]);
        pt.push(0x01);
        pt.push(0x01);
        pt.push(icc_n.len() as u8);
        pt.push(icc_e.len() as u8);
        pt.extend_from_slice(&icc_n);
        pt.extend(std::iter::repeat(0xBB).take(176 - 42 - icc_n.len()));
        let mut hashed = pt[1..].to_vec();
        hashed.extend_from_slice(&icc_e); // no remainder (9F48 absent)
        hashed.extend_from_slice(&data_auth);
        hashed.extend_from_slice(&sda_values);
        pt.extend_from_slice(&openssl::sha::sha1(&hashed));
        pt.push(0xBC);
        assert_eq!(pt.len(), 176);
        pt
    };
    let t9f46 = private_encrypt(&issuer_key, &icc_cert);

    // record 2 (not counted) carries the certificates
    let record2 = tlv(&[0x70], &{
        let mut t = Vec::new();
        t.extend(tlv(&[0x90], &t90));
        t.extend(tlv(&[0x92], &t92));
        t.extend(tlv(&[0x9F, 0x46], &t9f46));
        t.extend(tlv(&[0x9F, 0x47], &icc_e));
        t
    });

    // the signed dynamic application data for the forced 9F37
    let dda_pt = {
        let size = icc_n.len();
        let mut pt = vec![0u8; size];
        pt[0] = 0x6A;
        pt[1] = 0x05;
        pt[2] = 0x01;
        pt[3] = 0x09;
        pt[4] = 0x08;
        for i in 0..8 {
            pt[5 + i] = 0x10 + i as u8;
        }
        for b in pt.iter_mut().take(size - 21).skip(13) {
            *b = 0xBB;
        }
        let mut hashed = pt[1..size - 21].to_vec();
        hashed.extend_from_slice(&[0x01, 0x23, 0x45, 0x67]);
        let digest = openssl::sha::sha1(&hashed);
        pt[size - 21..size - 1].copy_from_slice(&digest);
        pt[size - 1] = 0xBC;
        pt
    };
    let t9f4b = private_encrypt(&icc_key, &dda_pt);

    // the payment system directory lives in SFI 2, the card data in SFI 1
    let fci = tlv(&[0x6F], &tlv(&[0x88], &[0x02]));
    let pse_record = tlv(
        &[0x70],
        &tlv(&[0x61], &{
            let mut t = Vec::new();
            t.extend(tlv(&[0x4F], &aid));
            t.extend(tlv(&[0x50], b"MASTERCARD"));
            t.extend(tlv(&[0x87], &[0x01]));
            t
        }),
    );
    let mut select_app = vec![0x00u8, 0xA4, 0x04, 0x00, aid.len() as u8];
    select_app.extend_from_slice(&aid);

    let script = vec![
        (SELECT_PSE.to_vec(), with_trailer(fci, 0x90, 0x00)),
        (
            vec![0x00, 0xB2, 0x01, 0x14, 0x00],
            with_trailer(pse_record.clone(), 0x90, 0x00),
        ),
        (select_app, vec![0x90, 0x00]),
        (
            vec![0x80, 0xCA, 0x9F, 0x36, 0x05],
            vec![0x9F, 0x36, 0x02, 0x00, 0x01, 0x90, 0x00],
        ),
        (
            vec![0x80, 0xA8, 0x00, 0x00, 0x02, 0x83, 0x00],
            // template 80: AIP 3C 00, AFL: SFI 1, records 1..2, 1 counted
            vec![0x80, 0x06, 0x3C, 0x00, 0x08, 0x01, 0x02, 0x01, 0x90, 0x00],
        ),
        (
            vec![0x00, 0xB2, 0x01, 0x0C, 0x00],
            with_trailer(record1, 0x90, 0x00),
        ),
        (
            vec![0x00, 0xB2, 0x02, 0x0C, 0x00],
            with_trailer(record2, 0x90, 0x00),
        ),
        (
            vec![0x00, 0x88, 0x00, 0x00, 0x04, 0x01, 0x23, 0x45, 0x67, 0x00],
            with_trailer(tlv(&[0x80], &t9f4b), 0x90, 0x00),
        ),
        (
            vec![0x00, 0x84, 0x00, 0x00, 0x00],
            vec![0xA1, 0xA2, 0xA3, 0xA4, 0xA5, 0xA6, 0xA7, 0xA8, 0x90, 0x00],
        ),
        (
            vec![0x80, 0xAE, 0x40, 0x00, 0x04, 0x01, 0x23, 0x45, 0x67, 0x00],
            // CID, ATC, an eight-byte cryptogram
            vec![
                0x80, 0x0B, 0x40, 0x00, 0x01, 0xC1, 0xC2, 0xC3, 0xC4, 0xC5, 0xC6, 0xC7, 0xC8,
                0x90, 0x00,
            ],
        ),
    ];

    let mut conn = connect_with(script, ca_table);

    let applications = conn.handle_select_payment_system_environment().unwrap();
    let application = EmvApplication {
        aid: applications[0].aid.clone(),
        label: applications[0].label.clone(),
        priority: applications[0].priority.clone(),
    };
    conn.handle_select_payment_application(&application).unwrap();
    conn.process_settings().unwrap();

    // force the transaction date and the unpredictable number
    conn.add_tag(0x9A, vec![0x20, 0x07, 0x24]);
    conn.add_tag(0x9F37, vec![0x01, 0x23, 0x45, 0x67]);

    conn.handle_get_data(&[0x9F, 0x36]).unwrap();

    let data_authentication = conn.handle_get_processing_options().unwrap();
    assert_eq!(data_authentication, data_auth);
    assert_eq!(conn.get_tag_value(0x82).unwrap(), &vec![0x3C, 0x00]);

    let (issuer_pk_modulus, issuer_pk_exponent) =
        conn.get_issuer_public_key(&application).unwrap();
    assert_eq!(issuer_pk_modulus, issuer_n);

    let tag_9f46 = conn.get_tag_value(0x9F46).unwrap().clone();
    let tag_9f47 = conn.get_tag_value(0x9F47).unwrap().clone();
    let tag_9f48 = conn.get_tag_value(0x9F48).cloned();
    let (icc_pk_modulus, icc_pk_exponent) = conn
        .get_icc_public_key(
            &tag_9f46,
            &tag_9f47,
            tag_9f48.as_ref(),
            &issuer_pk_modulus,
            &issuer_pk_exponent,
            &data_authentication,
        )
        .unwrap();
    assert_eq!(icc_pk_modulus, icc_n);

    conn.handle_dynamic_data_authentication(&icc_pk_modulus, &icc_pk_exponent)
        .unwrap();
    assert_eq!(
        conn.get_tag_value(0x9F4C).unwrap(),
        &vec![0x10, 0x11, 0x12, 0x13, 0x14, 0x15, 0x16, 0x17]
    );

    let ascii_pin = b"1234";
    conn.handle_verify_plaintext_pin(ascii_pin).unwrap();
    conn.handle_verify_enciphered_pin(ascii_pin, &icc_pk_modulus, &icc_pk_exponent)
        .unwrap();

    // enciphered PIN verified
    conn.add_tag(0x9F34, vec![0x44, 0x03, 0x02]);

    conn.handle_generate_ac().unwrap();
    assert_eq!(conn.get_tag_value(0x9F27).unwrap(), &vec![0x40]);
    assert_eq!(conn.get_tag_value(0x9F36).unwrap(), &vec![0x00, 0x01]);
    assert_eq!(
        conn.get_tag_value(0x9F26).unwrap(),
        &vec![0xC1, 0xC2, 0xC3, 0xC4, 0xC5, 0xC6, 0xC7, 0xC8]
    );
}
