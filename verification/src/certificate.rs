//! Certificates and private keys, as plain bytes in DER.

use vstd::prelude::*;

verus! {

/// The certificates that a client accepts, by their SHA-256 hashes.
#[derive(Debug)]
pub struct ServerFingerprints {
    pub fingerprints: Vec<Vec<u8>>,
}

/// Whether one of the fingerprints is the hash.
pub open spec fn is_known(fingerprints: Seq<Vec<u8>>, hash: Seq<u8>) -> bool {
    exists|i: int| 0 <= i < fingerprints.len() && #[trigger] fingerprints[i]@ == hash
}

/// Whether two byte strings are the same.
pub(crate) fn same_bytes(a: &[u8], b: &[u8]) -> (r: bool)
    ensures
        r == (a@ == b@),
{
    if a.len() != b.len() {
        return false;
    }
    let mut i: usize = 0;
    while i < a.len()
        invariant
            a@.len() == b@.len(),
            i <= a@.len(),
            forall|j: int| 0 <= j < i ==> a@[j] == b@[j],
        decreases a@.len() - i,
    {
        if a[i] != b[i] {
            assert(a@[i as int] != b@[i as int]);
            return false;
        }
        i += 1;
    }
    assert(a@ =~= b@);
    true
}

impl ServerFingerprints {
    /// Whether a server may use the certificate with this hash.
    pub fn verify(&self, hash: &[u8]) -> (r: bool)
        ensures
            r == is_known(self.fingerprints@, hash@),
    {
        let mut i: usize = 0;
        while i < self.fingerprints.len()
            invariant
                i <= self.fingerprints@.len(),
                forall|j: int| 0 <= j < i ==> #[trigger] self.fingerprints@[j]@ != hash@,
            decreases self.fingerprints@.len() - i,
        {
            if same_bytes(self.fingerprints[i].as_slice(), hash) {
                assert(self.fingerprints@[i as int]@ == hash@);
                return true;
            }
            i += 1;
        }
        false
    }
}

/// The form of a private key.
#[derive(Debug, Clone, Copy, PartialEq, Eq, Structural)]
pub enum KeyForm {
    Pkcs1,
    Sec1,
    Pkcs8,
}

/// A private key in DER, in one of its forms.
#[derive(Debug)]
pub struct PrivateKey {
    pub form: KeyForm,
    pub der: Vec<u8>,
}

/// A certificate chain, leaf first, and its private key.
#[derive(Debug)]
pub struct Identity {
    pub chain: Vec<Vec<u8>>,
    pub key: PrivateKey,
}

/// The bytes of each certificate.
pub open spec fn ders(chain: Seq<Vec<u8>>) -> Seq<Seq<u8>> {
    chain.map_values(|der: Vec<u8>| der@)
}

/// The certificates in a PEM file, or the message that says why it is none.
pub uninterp spec fn pem_certs(pem: Seq<u8>) -> Result<Seq<Seq<u8>>, Seq<char>>;

/// The first private key in a PEM file, or the message that says why it is none.
pub uninterp spec fn pem_key(pem: Seq<u8>) -> Result<Option<(KeyForm, Seq<u8>)>, Seq<char>>;

/// The form of a private key, as its first bytes tell it, or the message that
/// says that they tell none.
pub uninterp spec fn key_form(der: Seq<u8>) -> Result<KeyForm, Seq<char>>;

/// `rustls_pemfile::certs`: every certificate of the file in its order, up to the
/// first error. The result is the one that [`pem_certs`] names.
#[verifier::external_body]
fn read_pem_certs(pem: &[u8]) -> (r: Result<Vec<Vec<u8>>, String>)
    ensures
        match r {
            Ok(chain) => pem_certs(pem@) == Ok::<Seq<Seq<u8>>, Seq<char>>(ders(chain@)),
            Err(message) => pem_certs(pem@) == Err::<Seq<Seq<u8>>, Seq<char>>(message@),
        },
{
    rustls_pemfile::certs(&mut &pem[..])
        .map(|cert| cert.map(|c| c.to_vec()).map_err(|e| e.to_string()))
        .collect()
}

/// `rustls_pemfile::private_key`: the first private key of the file, if it has
/// one. The result is the one that [`pem_key`] names.
#[verifier::external_body]
fn read_pem_key(pem: &[u8]) -> (r: Result<Option<PrivateKey>, String>)
    ensures
        match r {
            Ok(Some(key)) => pem_key(pem@) == Ok::<Option<(KeyForm, Seq<u8>)>, Seq<char>>(
                Some((key.form, key.der@)),
            ),
            Ok(None) => pem_key(pem@) == Ok::<Option<(KeyForm, Seq<u8>)>, Seq<char>>(None),
            Err(message) => pem_key(pem@) == Err::<Option<(KeyForm, Seq<u8>)>, Seq<char>>(message@),
        },
{
    let key = rustls_pemfile::private_key(&mut &pem[..]).map_err(|e| e.to_string())?;
    Ok(key.map(|k| PrivateKey {
        der: k.secret_der().to_vec(),
        form: match k {
            rustls_pki_types::PrivateKeyDer::Pkcs1(_) => KeyForm::Pkcs1,
            rustls_pki_types::PrivateKeyDer::Sec1(_) => KeyForm::Sec1,
            _ => KeyForm::Pkcs8,
        },
    }))
}

/// `rustls_pki_types::PrivateKeyDer::try_from` on bytes: the form that they are
/// taken for. The result is the one that [`key_form`] names.
#[verifier::external_body]
fn read_key_form(der: &[u8]) -> (r: Result<KeyForm, String>)
    ensures
        match r {
            Ok(form) => key_form(der@) == Ok::<KeyForm, Seq<char>>(form),
            Err(message) => key_form(der@) == Err::<KeyForm, Seq<char>>(message@),
        },
{
    match rustls_pki_types::PrivateKeyDer::try_from(der) {
        Ok(rustls_pki_types::PrivateKeyDer::Pkcs1(_)) => Ok(KeyForm::Pkcs1),
        Ok(rustls_pki_types::PrivateKeyDer::Sec1(_)) => Ok(KeyForm::Sec1),
        Ok(_) => Ok(KeyForm::Pkcs8),
        Err(e) => Err(e.to_string()),
    }
}

/// What was read from the PEM files of a server, as its identity.
pub fn identity_from(
    certs: Result<Vec<Vec<u8>>, String>,
    key: Result<Option<PrivateKey>, String>,
) -> (r: Result<Identity, String>)
    ensures
        match (certs, key) {
            (Ok(chain), Ok(Some(k))) => r == Ok::<Identity, String>(Identity { chain, key: k }),
            (Ok(_), Ok(None)) => r matches Err(m) && m@ == "no private key found in PEM"@,
            (Ok(_), Err(e)) => r matches Err(m) && m@ == "invalid private key PEM: "@ + e@,
            (Err(e), _) => r matches Err(m) && m@ == "invalid certificate PEM: "@ + e@,
        },
{
    match certs {
        Ok(chain) => match key {
            Ok(Some(k)) => Ok(Identity { chain, key: k }),
            Ok(None) => Err("no private key found in PEM".to_string()),
            Err(e) => Err("invalid private key PEM: ".to_string().concat(e.as_str())),
        },
        Err(e) => Err("invalid certificate PEM: ".to_string().concat(e.as_str())),
    }
}

/// Read the identity of a server from PEM files. An error in the certificates
/// goes first.
pub fn identity_from_pem(cert_pem: &[u8], key_pem: &[u8]) -> (r: Result<Identity, String>)
    ensures
        match (pem_certs(cert_pem@), pem_key(key_pem@)) {
            (Ok(chain), Ok(Some(key))) => {
                &&& r matches Ok(identity)
                &&& ders(identity.chain@) == chain
                &&& (identity.key.form, identity.key.der@) == key
            },
            (Ok(_), Ok(None)) => r matches Err(m) && m@ == "no private key found in PEM"@,
            (Ok(_), Err(e)) => r matches Err(m) && m@ == "invalid private key PEM: "@ + e,
            (Err(e), _) => r matches Err(m) && m@ == "invalid certificate PEM: "@ + e,
        },
{
    identity_from(read_pem_certs(cert_pem), read_pem_key(key_pem))
}

/// A private key of the form that was found.
pub fn key_from(der: Vec<u8>, form: Result<KeyForm, String>) -> (r: Result<PrivateKey, String>)
    ensures
        match form {
            Ok(form) => r == Ok::<PrivateKey, String>(PrivateKey { form, der }),
            Err(e) => r matches Err(m) && m@ == "invalid private key: "@ + e@,
        },
{
    match form {
        Ok(form) => Ok(PrivateKey { form, der }),
        Err(e) => Err("invalid private key: ".to_string().concat(e.as_str())),
    }
}

/// Take bytes for a private key.
pub fn key_from_der(der: Vec<u8>) -> (r: Result<PrivateKey, String>)
    ensures
        match key_form(der@) {
            Ok(form) => r == Ok::<PrivateKey, String>(PrivateKey { form, der }),
            Err(e) => r matches Err(m) && m@ == "invalid private key: "@ + e,
        },
{
    let form = read_key_form(der.as_slice());
    key_from(der, form)
}

/// Law: a certificate is known by its whole hash, and by any of the fingerprints.
pub proof fn lemma_known(fingerprints: Seq<Vec<u8>>, hash: Seq<u8>, i: int)
    ensures
        0 <= i < fingerprints.len() && fingerprints[i]@ == hash ==> is_known(fingerprints, hash),
        (forall|j: int| 0 <= j < fingerprints.len() ==> #[trigger] fingerprints[j]@ != hash)
            ==> !is_known(fingerprints, hash),
{
}

} // verus!
