//! Certificate-chain and raw-RSA tests, with keys generated through
//! openssl — the same primitives the library calls.

use emvpt::cert::{is_expired_on, recover_issuer_public_key, verify_dynamic_signature};
use emvpt::rsa::{get_ca_public_key, CaCertificate, CertificateAuthority, RsaPublicKey};
use openssl::rsa::{Padding, Rsa};

fn private_encrypt(key: &Rsa<openssl::pkey::Private>, plaintext: &[u8]) -> Vec<u8> {
    let mut out = vec![0u8; plaintext.len() + 16];
    let n = key
        .private_encrypt(plaintext, &mut out, Padding::NONE)
        .unwrap();
    out.truncate(n);
    out
}

#[test]
fn rsa_envelope_checks() {
    let key = Rsa::generate(1024).unwrap();
    let n = key.n().to_vec();
    let e = key.e().to_vec();
    let pk = RsaPublicKey::new(&n, &e);
    let size = n.len();

    let mut good = vec![0u8; size];
    good[0] = 0x6A;
    good[1] = 0xFF;
    good[size - 1] = 0xBC;
    let ct = private_encrypt(&key, &good);
    // decryption really inverts the encryption: the envelope comes back
    assert_eq!(pk.public_decrypt(&ct).unwrap(), good);

    // public_decrypt succeeds only on a 6A … BC envelope of key size
    let mut bad_head = good.clone();
    bad_head[0] = 0x6B;
    assert!(pk.public_decrypt(&private_encrypt(&key, &bad_head)).is_err());
    let mut bad_tail = good.clone();
    bad_tail[size - 1] = 0xBD;
    assert!(pk.public_decrypt(&private_encrypt(&key, &bad_tail)).is_err());
    assert!(pk.public_decrypt(&ct[0..size - 1]).is_err());
}

#[test]
fn rsa_public_encrypt_inverts() {
    let key = Rsa::generate(1024).unwrap();
    let pk = RsaPublicKey::new(&key.n().to_vec(), &key.e().to_vec());
    let mut plaintext = vec![0u8; 128];
    plaintext[0] = 0x01;
    for (i, b) in plaintext.iter_mut().enumerate().skip(1) {
        *b = (i % 251) as u8;
    }
    let ct = pk.public_encrypt(&plaintext).unwrap();
    assert_eq!(ct.len(), 128);
    let mut back = vec![0u8; 256];
    let n = key.private_decrypt(&ct, &mut back, Padding::NONE).unwrap();
    back.truncate(n);
    // private_decrypt strips leading zeros; compare the tails
    assert_eq!(&plaintext[128 - n..], &back[..]);
}

#[test]
fn ca_key_lookup() {
    let ca = CertificateAuthority {
        rid: vec![0xA0, 0x00, 0x00, 0x00, 0x04],
        certificates: vec![
            CaCertificate {
                index: vec![0x01],
                key: RsaPublicKey::new(&[0x11], &[0x03]),
            },
            CaCertificate {
                index: vec![0x92],
                key: RsaPublicKey::new(&[0x22], &[0x03]),
            },
        ],
    };
    let table = vec![ca];
    let hit = get_ca_public_key(&table, &[0xA0, 0x00, 0x00, 0x00, 0x04], &[0x92]).unwrap();
    assert_eq!(hit.modulus, vec![0x22]);
    assert!(get_ca_public_key(&table, &[0xA0, 0x00, 0x00, 0x00, 0x05], &[0x92]).is_none());
    assert!(get_ca_public_key(&table, &[0xA0, 0x00, 0x00, 0x00, 0x04], &[0x93]).is_none());
}

/// Builds an issuer certificate of the scheme CA's key size around the
/// issuer key, with the hash over body || remainder || exponent.
fn build_issuer_cert(
    ca_size: usize,
    iin: &[u8],
    issuer_n: &[u8],
    remainder: &[u8],
    exponent: &[u8],
) -> Vec<u8> {
    let leftmost_len = ca_size - 36;
    let mut pt = Vec::new();
    pt.push(0x6A);
    pt.push(0x02);
    pt.extend_from_slice(iin); // 4 bytes
    pt.extend_from_slice(&[0x12, 0x49]); // expiry MMYY: December 2049
    pt.extend_from_slice(&[0x00, 0x00, 0x01]); // serial
    pt.push(0x01); // SHA-1
    pt.push(0x01); // RSA
    pt.push(issuer_n.len() as u8);
    pt.push(exponent.len() as u8);
    pt.extend_from_slice(&issuer_n[0..leftmost_len]);
    let mut hashed = pt[1..].to_vec();
    hashed.extend_from_slice(remainder);
    hashed.extend_from_slice(exponent);
    let digest = openssl::sha::sha1(&hashed);
    pt.extend_from_slice(&digest);
    pt.push(0xBC);
    assert_eq!(pt.len(), ca_size);
    pt
}

#[test]
fn issuer_certificate_chain() {
    // |N| = 176 bytes (1408 bits) for the scheme key; the issuer key is
    // 162 bytes, so its certificate carries 140 leftmost digits and a
    // 22-byte remainder in tag 92
    let ca_key = Rsa::generate(1408).unwrap();
    let ca_pk = RsaPublicKey::new(&ca_key.n().to_vec(), &ca_key.e().to_vec());
    let issuer_key = Rsa::generate(1296).unwrap();
    let issuer_n = issuer_key.n().to_vec();
    let issuer_e = issuer_key.e().to_vec();
    assert_eq!(issuer_n.len(), 162);

    let t92 = issuer_n[176 - 36..].to_vec(); // the 22-byte remainder
    let t5a = vec![0x12, 0x34, 0x56, 0x00, 0x12, 0x34, 0x56, 0x08];
    let iin = [0x12, 0x34, 0x56, 0x00];
    let pt = build_issuer_cert(176, &iin, &issuer_n, &t92, &issuer_e);
    assert_eq!(pt[0], 0x6A);
    assert_eq!(pt[1], 0x02);
    let t90 = private_encrypt(&ca_key, &pt);
    assert_eq!(t90.len(), 176);

    let (modulus, exponent, expiry) =
        recover_issuer_public_key(&ca_pk, &t90, &t92, &issuer_e, &t5a).unwrap();
    // leftmost digits (176 - 36) plus the remainder: the whole modulus,
    // 162 bytes (176 - 14)
    assert_eq!(modulus.len(), 162);
    assert_eq!(modulus, issuer_n);
    assert_eq!(exponent, issuer_e);
    // the certificate's MMYY expiry comes back for the caller's warning
    assert_eq!(expiry, vec![0x12, 0x49]);
    assert!(!is_expired_on(&expiry, 2026, 1, 1));

    // a certificate whose IIN does not open the PAN is rejected
    let wrong_pan = vec![0x99, 0x34, 0x56, 0x00, 0x12, 0x34, 0x56, 0x08];
    assert!(recover_issuer_public_key(&ca_pk, &t90, &t92, &issuer_e, &wrong_pan).is_err());
    // a certificate with a corrupted hash is rejected
    let mut bad = pt.clone();
    bad[40] ^= 0x01;
    let t90_bad = private_encrypt(&ca_key, &bad);
    assert!(recover_issuer_public_key(&ca_pk, &t90_bad, &t92, &issuer_e, &t5a).is_err());
}

#[test]
fn dynamic_signature() {
    let icc_key = Rsa::generate(1024).unwrap();
    let icc_pk = RsaPublicKey::new(&icc_key.n().to_vec(), &icc_key.e().to_vec());
    let size = 128;
    let auth_data = [0x01u8, 0x23, 0x45, 0x67];

    let mut pt = vec![0u8; size];
    pt[0] = 0x6A;
    pt[1] = 0x05;
    pt[2] = 0x01;
    pt[3] = 0x09; // dynamic data: one length byte and eight number bytes
    pt[4] = 0x08;
    for i in 0..8 {
        pt[5 + i] = 0x11 * (i as u8 + 1);
    }
    for b in pt.iter_mut().take(size - 21).skip(13) {
        *b = 0xBB;
    }
    let mut hashed = pt[1..size - 21].to_vec();
    hashed.extend_from_slice(&auth_data);
    let digest = openssl::sha::sha1(&hashed);
    pt[size - 21..size - 1].copy_from_slice(&digest);
    pt[size - 1] = 0xBC;

    let t9f4b = private_encrypt(&icc_key, &pt);
    let (dyn_number, hash_ok) = verify_dynamic_signature(&icc_pk, &t9f4b, &auth_data).unwrap();
    assert!(hash_ok);
    assert_eq!(
        dyn_number,
        vec![0x11, 0x22, 0x33, 0x44, 0x55, 0x66, 0x77, 0x88]
    );

    // different authentication data: the hash no longer matches
    let (_, hash_ok) = verify_dynamic_signature(&icc_pk, &t9f4b, &[0x01, 0x23, 0x45, 0x68])
        .unwrap();
    assert!(!hash_ok);
}

#[test]
fn certificate_expiry() {
    // expiry 07/20 read as 2020-07-01; 30 days of grace
    assert!(is_expired_on(&[0x07, 0x20], 2020, 9, 1));
    assert!(!is_expired_on(&[0x07, 0x20], 2020, 7, 15));
    assert!(!is_expired_on(&[0x07, 0x20], 2020, 7, 31));
    assert!(!is_expired_on(&[0x07, 0x20], 2019, 7, 1));
    // the grace boundary: 31 July 2020 is 30 days past 1 July 2020
    assert!(is_expired_on(&[0x07, 0x20], 2020, 8, 1));
    // a value that spells no date counts as expired
    assert!(is_expired_on(&[0x13, 0x20], 2020, 7, 1));
    assert!(is_expired_on(&[0xA1, 0x20], 2020, 7, 1));
}
