//! Raw RSA as EMV uses it: bare modular exponentiation with the public
//! key, no padding scheme.  The structure (`6A … BC`, hashes, lengths)
//! lives in the plaintext itself and is checked here, in verified code.
//! The modular exponentiation and SHA-1 come from the openssl crate.

use vstd::prelude::*;

use crate::tlv::copy_range;

verus! {

/// What openssl's public-key encryption returns for a modulus, an
/// exponent and a plaintext: a function of its arguments alone.
pub uninterp spec fn rsa_public_encrypt_of(n: Seq<u8>, e: Seq<u8>, data: Seq<u8>) -> Seq<u8>;

/// What openssl's public-key decryption returns for a modulus, an
/// exponent and a ciphertext: a function of its arguments alone.
pub uninterp spec fn rsa_public_decrypt_of(n: Seq<u8>, e: Seq<u8>, data: Seq<u8>) -> Seq<u8>;

/// The SHA-1 digest of a byte string: a function of the bytes alone.
pub uninterp spec fn sha1_of(data: Seq<u8>) -> Seq<u8>;

/// Whether openssl accepts a public-key encryption of these arguments
/// (the plaintext must not outgrow the modulus, among its own rules):
/// like the result, a function of the arguments alone.
pub uninterp spec fn rsa_public_encrypt_accepts(n: Seq<u8>, e: Seq<u8>, data: Seq<u8>) -> bool;

/// Whether openssl accepts a public-key decryption of these arguments:
/// like the result, a function of the arguments alone.
pub uninterp spec fn rsa_public_decrypt_accepts(n: Seq<u8>, e: Seq<u8>, data: Seq<u8>) -> bool;

/// Relies on openssl's `sha::sha1`, which returns the 20-byte SHA-1
/// digest of `data`.
#[verifier::external_body]
pub(crate) fn sha1(data: &[u8]) -> (r: Vec<u8>)
    ensures
        r@ == sha1_of(data@),
        r@.len() == 20,
{
    openssl::sha::sha1(data).to_vec()
}

/// Relies on openssl's `Rsa::public_encrypt` with `Padding::NONE` (raw
/// modular exponentiation with the public key), on `BigNum::from_slice`
/// and `Rsa::from_public_components` to build the key from big-endian
/// bytes.  `public_encrypt` panics when the output buffer is smaller than
/// the key, so the modulus is bounded by the buffer here.  Whether these
/// calls accept their arguments depends on the arguments alone, so the
/// outcome carries the acceptance name (allocation failure, like the
/// rest of this development, is taken to abort rather than return).
#[verifier::external_body]
fn rsa_public_encrypt_raw(modulus: &[u8], exponent: &[u8], data: &[u8]) -> (r: Result<
    Vec<u8>,
    (),
>)
    requires
        modulus@.len() <= 4096,
        data@.len() <= 4096,
    ensures
        r is Ok <==> rsa_public_encrypt_accepts(modulus@, exponent@, data@),
        r matches Ok(v) ==> v@ == rsa_public_encrypt_of(modulus@, exponent@, data@) && v@.len()
            <= 4096,
{
    let n = openssl::bn::BigNum::from_slice(modulus).map_err(|_| ())?;
    let e = openssl::bn::BigNum::from_slice(exponent).map_err(|_| ())?;
    let key = openssl::rsa::Rsa::from_public_components(n, e).map_err(|_| ())?;
    let mut out = [0u8; 4096];
    match key.public_encrypt(data, &mut out, openssl::rsa::Padding::NONE) {
        Ok(len) => Ok(out[..len].to_vec()),
        Err(_) => Err(()),
    }
}

/// Relies on openssl's `Rsa::public_decrypt` with `Padding::NONE` (raw
/// modular exponentiation with the public key), on `BigNum::from_slice`
/// and `Rsa::from_public_components` to build the key from big-endian
/// bytes.  `public_decrypt` panics when the output buffer is smaller than
/// the key, so the modulus is bounded by the buffer here.  Whether these
/// calls accept their arguments depends on the arguments alone, so the
/// outcome carries the acceptance name (allocation failure, like the
/// rest of this development, is taken to abort rather than return).
#[verifier::external_body]
fn rsa_public_decrypt_raw(modulus: &[u8], exponent: &[u8], data: &[u8]) -> (r: Result<
    Vec<u8>,
    (),
>)
    requires
        modulus@.len() <= 4096,
        data@.len() <= 4096,
    ensures
        r is Ok <==> rsa_public_decrypt_accepts(modulus@, exponent@, data@),
        r matches Ok(v) ==> v@ == rsa_public_decrypt_of(modulus@, exponent@, data@) && v@.len()
            <= 4096,
{
    let n = openssl::bn::BigNum::from_slice(modulus).map_err(|_| ())?;
    let e = openssl::bn::BigNum::from_slice(exponent).map_err(|_| ())?;
    let key = openssl::rsa::Rsa::from_public_components(n, e).map_err(|_| ())?;
    let mut out = [0u8; 4096];
    match key.public_decrypt(data, &mut out, openssl::rsa::Padding::NONE) {
        Ok(len) => Ok(out[..len].to_vec()),
        Err(_) => Err(()),
    }
}

/// The EMV signature envelope: exactly the modulus length, opening
/// `6A`, closing `BC`.
pub open spec fn spec_envelope_ok(v: Seq<u8>, n_len: int) -> bool {
    &&& v.len() == n_len
    &&& v.len() >= 2
    &&& v[0] == 0x6A
    &&& v[v.len() - 1] == 0xBC
}

/// An RSA public key: modulus and public exponent as big-endian bytes.
#[derive(Debug)]
pub struct RsaPublicKey {
    pub modulus: Vec<u8>,
    pub exponent: Vec<u8>,
}

impl RsaPublicKey {
    /// A key from its big-endian modulus and exponent bytes.
    pub fn new(modulus: &[u8], exponent: &[u8]) -> (r: RsaPublicKey)
        ensures
            r.modulus@ == modulus@,
            r.exponent@ == exponent@,
    {
        let r = RsaPublicKey {
            modulus: copy_range(modulus, 0, modulus.len()),
            exponent: copy_range(exponent, 0, exponent.len()),
        };
        proof {
            assert(modulus@.subrange(0, modulus@.len() as int) =~= modulus@);
            assert(exponent@.subrange(0, exponent@.len() as int) =~= exponent@);
        }
        r
    }

    /// Raw RSA encryption under this key: it succeeds exactly when the
    /// sizes fit the primitive, openssl accepts the arguments, and the
    /// ciphertext comes back as long as the modulus.
    pub fn public_encrypt(&self, plaintext_data: &[u8]) -> (r: Result<Vec<u8>, ()>)
        ensures
            r is Ok <==> {
                &&& self.modulus@.len() <= 4096
                &&& plaintext_data@.len() <= 4096
                &&& rsa_public_encrypt_accepts(self.modulus@, self.exponent@, plaintext_data@)
                &&& rsa_public_encrypt_of(self.modulus@, self.exponent@, plaintext_data@).len()
                    == self.modulus@.len()
            },
            r matches Ok(v) ==> {
                &&& v@ == rsa_public_encrypt_of(self.modulus@, self.exponent@, plaintext_data@)
                &&& v@.len() == self.modulus@.len()
            },
    {
        if self.modulus.len() > 4096 || plaintext_data.len() > 4096 {
            return Err(());
        }
        let data = match rsa_public_encrypt_raw(
            self.modulus.as_slice(),
            self.exponent.as_slice(),
            plaintext_data,
        ) {
            Ok(v) => v,
            Err(()) => {
                return Err(());
            },
        };
        if data.len() != self.modulus.len() {
            return Err(());
        }
        Ok(data)
    }

    /// Raw RSA decryption under this key, with the EMV envelope checks:
    /// it succeeds exactly when the sizes fit the primitive, openssl
    /// accepts the arguments, and the recovered plaintext is a `6A … BC`
    /// envelope of the modulus length.
    pub fn public_decrypt(&self, cipher_data: &[u8]) -> (r: Result<Vec<u8>, ()>)
        ensures
            r is Ok <==> {
                &&& self.modulus@.len() <= 4096
                &&& cipher_data@.len() <= 4096
                &&& rsa_public_decrypt_accepts(self.modulus@, self.exponent@, cipher_data@)
                &&& spec_envelope_ok(
                    rsa_public_decrypt_of(self.modulus@, self.exponent@, cipher_data@),
                    self.modulus@.len() as int,
                )
            },
            r matches Ok(v) ==> v@ == rsa_public_decrypt_of(
                self.modulus@,
                self.exponent@,
                cipher_data@,
            ),
    {
        if self.modulus.len() > 4096 || cipher_data.len() > 4096 {
            return Err(());
        }
        let data = match rsa_public_decrypt_raw(
            self.modulus.as_slice(),
            self.exponent.as_slice(),
            cipher_data,
        ) {
            Ok(v) => v,
            Err(()) => {
                return Err(());
            },
        };
        if data.len() != self.modulus.len() || data.len() < 2 {
            return Err(());
        }
        if data[0] != 0x6A {
            return Err(());
        }
        if data[data.len() - 1] != 0xBC {
            return Err(());
        }
        Ok(data)
    }
}

/// One scheme key of the certificate-authority table, filed under its CA
/// public-key index (the value of tag `8F`).
pub struct CaCertificate {
    pub index: Vec<u8>,
    pub key: RsaPublicKey,
}

/// One certificate authority: its RID (the five-byte prefix of an AID)
/// and its keys by index.
pub struct CertificateAuthority {
    pub rid: Vec<u8>,
    pub certificates: Vec<CaCertificate>,
}

/// True when two byte strings hold the same bytes.
pub fn bytes_eq(a: &[u8], b: &[u8]) -> (r: bool)
    ensures
        r == (a@ == b@),
{
    if a.len() != b.len() {
        proof {
            assert(a@.len() != b@.len());
        }
        return false;
    }
    let n = a.len();
    let mut i: usize = 0;
    while i < n
        invariant
            0 <= i <= n == a@.len() == b@.len(),
            forall|j: int| 0 <= j < i ==> a@[j] == b@[j],
        decreases n - i,
    {
        if a[i] != b[i] {
            return false;
        }
        i = i + 1;
    }
    proof {
        assert(a@ =~= b@);
    }
    true
}

/// The position of the first key filed under `index`, if any.
pub open spec fn spec_find_cert(certs: Seq<CaCertificate>, index: Seq<u8>) -> Option<int>
    decreases certs.len(),
{
    if certs.len() == 0 {
        None
    } else if certs[0].index@ == index {
        Some(0int)
    } else {
        match spec_find_cert(certs.skip(1), index) {
            Some(j) => Some(j + 1),
            None => None,
        }
    }
}

/// The modulus and exponent of the first key the table files under this
/// RID and index, scanning authorities and their keys in order.
pub open spec fn spec_find_ca_key(
    cas: Seq<CertificateAuthority>,
    rid: Seq<u8>,
    index: Seq<u8>,
) -> Option<(Seq<u8>, Seq<u8>)>
    decreases cas.len(),
{
    if cas.len() == 0 {
        None
    } else if cas[0].rid@ == rid {
        match spec_find_cert(cas[0].certificates@, index) {
            Some(j) => Some(
                (cas[0].certificates@[j].key.modulus@, cas[0].certificates@[j].key.exponent@),
            ),
            None => spec_find_ca_key(cas.skip(1), rid, index),
        }
    } else {
        spec_find_ca_key(cas.skip(1), rid, index)
    }
}

/// The found position is in range and names the index searched for.
proof fn lemma_find_cert_bounds(certs: Seq<CaCertificate>, index: Seq<u8>)
    ensures
        spec_find_cert(certs, index) matches Some(j) ==> 0 <= j < certs.len()
            && certs[j].index@ == index,
    decreases certs.len(),
{
    if certs.len() > 0 && certs[0].index@ != index {
        lemma_find_cert_bounds(certs.skip(1), index);
        if let Some(j) = spec_find_cert(certs.skip(1), index) {
            assert(certs.skip(1)[j] == certs[j + 1]);
        }
    }
}

/// Looks a scheme key up by RID and CA public-key index: the first
/// matching key of the table, in table order.
pub fn get_ca_public_key<'a>(
    ca_data: &'a Vec<CertificateAuthority>,
    rid: &[u8],
    index: &[u8],
) -> (r: Option<&'a RsaPublicKey>)
    ensures
        r is Some <==> spec_find_ca_key(ca_data@, rid@, index@) is Some,
        r matches Some(k) ==> Some((k.modulus@, k.exponent@)) == spec_find_ca_key(
            ca_data@,
            rid@,
            index@,
        ),
{
    let n = ca_data.len();
    let mut i: usize = 0;
    proof {
        assert(ca_data@.skip(0) =~= ca_data@);
    }
    while i < n
        invariant
            0 <= i <= n == ca_data@.len(),
            spec_find_ca_key(ca_data@, rid@, index@) == spec_find_ca_key(
                ca_data@.skip(i as int),
                rid@,
                index@,
            ),
        decreases n - i,
    {
        let ghost pre = ca_data@.skip(i as int);
        proof {
            assert(pre[0] == ca_data@[i as int]);
            assert(pre.skip(1) =~= ca_data@.skip(i + 1));
        }
        if bytes_eq(ca_data[i].rid.as_slice(), rid) {
            let certs = &ca_data[i].certificates;
            let cn = certs.len();
            let mut j: usize = 0;
            proof {
                assert(certs@.skip(0) =~= certs@);
                lemma_find_cert_bounds(certs@, index@);
            }
            while j < cn
                invariant
                    0 <= j <= cn == certs@.len(),
                    certs@ == ca_data@[i as int].certificates@,
                    0 <= i < ca_data@.len(),
                    ca_data@[i as int].rid@ == rid@,
                    spec_find_ca_key(ca_data@, rid@, index@) == spec_find_ca_key(
                        ca_data@.skip(i as int),
                        rid@,
                        index@,
                    ),
                    spec_find_cert(certs@, index@) matches Some(k) ==> k >= j
                        && spec_find_cert(certs@.skip(j as int), index@) == Some(k - j),
                    spec_find_cert(certs@.skip(j as int), index@) is Some ==> spec_find_cert(
                        certs@,
                        index@,
                    ) is Some,
                decreases cn - j,
            {
                let ghost cpre = certs@.skip(j as int);
                proof {
                    assert(cpre[0] == certs@[j as int]);
                    assert(cpre.skip(1) =~= certs@.skip(j + 1));
                }
                if bytes_eq(certs[j].index.as_slice(), index) {
                    proof {
                        assert(spec_find_cert(cpre, index@) == Some(0int));
                        assert(spec_find_cert(certs@, index@) is Some);
                        lemma_find_cert_bounds(certs@, index@);
                        let k = spec_find_cert(certs@, index@)->Some_0;
                        assert(k == j);
                        let here = ca_data@.skip(i as int);
                        assert(here[0] == ca_data@[i as int]);
                        assert(spec_find_ca_key(here, rid@, index@) == Some(
                            (certs@[j as int].key.modulus@, certs@[j as int].key.exponent@),
                        ));
                    }
                    return Some(&certs[j].key);
                }
                proof {
                    lemma_find_cert_bounds(cpre.skip(1), index@);
                    if let Some(k) = spec_find_cert(certs@, index@) {
                        assert(spec_find_cert(cpre, index@) == Some(k - j));
                        assert(cpre[0].index@ != index@);
                        assert(spec_find_cert(cpre.skip(1), index@) == Some(k - j - 1));
                    }
                }
                j = j + 1;
            }
            proof {
                assert(certs@.skip(cn as int) =~= Seq::<CaCertificate>::empty());
                lemma_find_cert_bounds(certs@, index@);
                if let Some(k) = spec_find_cert(certs@, index@) {
                    assert(k >= cn && k < cn);
                }
                assert(spec_find_cert(certs@, index@) is None);
                let here = ca_data@.skip(i as int);
                assert(here[0] == ca_data@[i as int]);
                assert(here.skip(1) =~= ca_data@.skip(i + 1));
            }
            i = i + 1;
        } else {
            i = i + 1;
        }
    }
    proof {
        assert(ca_data@.skip(n as int) =~= Seq::<CertificateAuthority>::empty());
    }
    None
}

} // verus!
