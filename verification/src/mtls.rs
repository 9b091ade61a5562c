use vstd::prelude::*;

verus! {

/// Why key material could not be taken from a PEM file.
#[derive(Debug)]
pub enum PemError {
    /// "Failed to load certificate chain"
    Certificates,
    /// "Multiple private keys found"
    MultipleKeys,
    /// "Failed to load private key"
    PrivateKey,
}

/// The DER bytes of each item, as sequences.
pub open spec fn ders(items: Seq<Vec<u8>>) -> Seq<Seq<u8>> {
    items.map_values(|d: Vec<u8>| d@)
}

/// A parser's outcome with its items as sequences.
pub open spec fn parsed(r: Option<Vec<Vec<u8>>>) -> Option<Seq<Seq<u8>>> {
    match r {
        Some(items) => Some(ders(items@)),
        None => None,
    }
}

/// The certificates that `rustls_pemfile::certs` finds in a PEM text, in
/// order, or none when it fails.
pub uninterp spec fn pem_certs(pem: Seq<u8>) -> Option<Seq<Seq<u8>>>;

/// The RSA keys that `rustls_pemfile::rsa_private_keys` finds in a PEM
/// text, in order, or none when it fails.
pub uninterp spec fn pem_rsa_keys(pem: Seq<u8>) -> Option<Seq<Seq<u8>>>;

/// The PKCS #8 keys that `rustls_pemfile::pkcs8_private_keys` finds in a
/// PEM text, in order, or none when it fails.
pub uninterp spec fn pem_pkcs8_keys(pem: Seq<u8>) -> Option<Seq<Seq<u8>>>;

/// Calls `rustls_pemfile::certs` on the bytes of a PEM text. The items it
/// returns are a function of those bytes alone, named `pem_certs`; its I/O
/// error becomes `None`.
#[verifier::external_body]
fn read_certs(pem: &[u8]) -> (r: Option<Vec<Vec<u8>>>)
    ensures
        parsed(r) == pem_certs(pem@),
{
    let mut rd = pem;
    rustls_pemfile::certs(&mut rd).ok()
}

/// Calls `rustls_pemfile::rsa_private_keys` on the bytes of a PEM text.
/// The keys it returns are a function of those bytes alone, named
/// `pem_rsa_keys`; its I/O error becomes `None`.
#[verifier::external_body]
fn read_rsa_keys(pem: &[u8]) -> (r: Option<Vec<Vec<u8>>>)
    ensures
        parsed(r) == pem_rsa_keys(pem@),
{
    let mut rd = pem;
    rustls_pemfile::rsa_private_keys(&mut rd).ok()
}

/// Calls `rustls_pemfile::pkcs8_private_keys` on the bytes of a PEM text.
/// The keys it returns are a function of those bytes alone, named
/// `pem_pkcs8_keys`; its I/O error becomes `None`.
#[verifier::external_body]
fn read_pkcs8_keys(pem: &[u8]) -> (r: Option<Vec<Vec<u8>>>)
    ensures
        parsed(r) == pem_pkcs8_keys(pem@),
{
    let mut rd = pem;
    rustls_pemfile::pkcs8_private_keys(&mut rd).ok()
}

/// What one key parser decides: nothing when it failed or found no key,
/// else the key when it found exactly one and an error when it found more.
pub open spec fn key_outcome(keys: Option<Seq<Seq<u8>>>) -> Option<Result<Seq<u8>, PemError>> {
    match keys {
        Some(k) => if k.len() == 0 {
            None
        } else if k.len() != 1 {
            Some(Err(PemError::MultipleKeys))
        } else {
            Some(Ok(k[0]))
        },
        None => None,
    }
}

/// The private key of a PEM text, given what the RSA parser found and,
/// when that decides nothing, what the PKCS #8 parser found.
pub open spec fn key_choice(rsa: Option<Seq<Seq<u8>>>, pkcs8: Option<Seq<Seq<u8>>>) -> Result<Seq<u8>, PemError> {
    match key_outcome(rsa) {
        Some(r) => r,
        None => match key_outcome(pkcs8) {
            Some(r) => r,
            None => Err(PemError::PrivateKey),
        },
    }
}

/// How many keys a parser found; a parser that failed found none.
pub open spec fn keys_found(keys: Option<Seq<Seq<u8>>>) -> nat {
    match keys {
        Some(k) => k.len(),
        None => 0,
    }
}

/// A key result with the key as a sequence.
pub open spec fn key_bytes(r: Result<Vec<u8>, PemError>) -> Result<Seq<u8>, PemError> {
    match r {
        Ok(k) => Ok(k@),
        Err(e) => Err(e),
    }
}

/// What one key parser decides, given what it found.
pub fn take_key(keys: Option<Vec<Vec<u8>>>) -> (r: Option<Result<Vec<u8>, PemError>>)
    ensures
        match r {
            Some(k) => key_outcome(parsed(keys)) == Some(key_bytes(k)),
            None => key_outcome(parsed(keys)) is None,
        },
{
    match keys {
        Some(mut keys) => {
            if keys.len() == 0 {
                None
            } else if keys.len() != 1 {
                Some(Err(PemError::MultipleKeys))
            } else {
                Some(Ok(keys.remove(0)))
            }
        },
        None => None,
    }
}

/// The certificate chain of a PEM text, in order.
pub fn certificates_from_pem(pem: &[u8]) -> (r: Result<Vec<Vec<u8>>, PemError>)
    ensures
        match pem_certs(pem@) {
            Some(certs) => r matches Ok(c) && ders(c@) == certs,
            None => r matches Err(PemError::Certificates),
        },
{
    match read_certs(pem) {
        Some(certs) => Ok(certs),
        None => Err(PemError::Certificates),
    }
}

/// The private key of a PEM text: the RSA keys are tried first and the
/// PKCS #8 keys only when there is no RSA key; exactly one key must be found.
pub fn private_key_from_pem(pem: &[u8]) -> (r: Result<Vec<u8>, PemError>)
    ensures
        key_bytes(r) == key_choice(pem_rsa_keys(pem@), pem_pkcs8_keys(pem@)),
        keys_found(pem_rsa_keys(pem@)) >= 2 ==> r matches Err(PemError::MultipleKeys),
        keys_found(pem_rsa_keys(pem@)) == 1 ==> (r matches Ok(k) && k@ == pem_rsa_keys(pem@)->0[0]),
        keys_found(pem_rsa_keys(pem@)) == 0 && keys_found(pem_pkcs8_keys(pem@)) >= 2 ==> r matches Err(
            PemError::MultipleKeys,
        ),
        keys_found(pem_rsa_keys(pem@)) == 0 && keys_found(pem_pkcs8_keys(pem@)) == 1 ==> (r matches Ok(k) && k@
            == pem_pkcs8_keys(pem@)->0[0]),
        keys_found(pem_rsa_keys(pem@)) == 0 && keys_found(pem_pkcs8_keys(pem@)) == 0 ==> r matches Err(
            PemError::PrivateKey,
        ),
{
    proof {
        lemma_one_key_or_refused(pem_rsa_keys(pem@), pem_pkcs8_keys(pem@));
    }
    match take_key(read_rsa_keys(pem)) {
        Some(r) => r,
        None => match take_key(read_pkcs8_keys(pem)) {
            Some(r) => r,
            None => Err(PemError::PrivateKey),
        },
    }
}

/// A PEM text yields a key only when the parser that decides found exactly
/// one: the RSA parser decides when it found any key, the PKCS #8 parser
/// otherwise. Two or more keys from the deciding parser are refused as
/// several keys, and no key from either parser is refused as no key.
pub proof fn lemma_one_key_or_refused(rsa: Option<Seq<Seq<u8>>>, pkcs8: Option<Seq<Seq<u8>>>)
    ensures
        key_choice(rsa, pkcs8) matches Ok(k) ==> (keys_found(rsa) == 1 && k == rsa->0[0]) || (keys_found(rsa)
            == 0 && keys_found(pkcs8) == 1 && k == pkcs8->0[0]),
        keys_found(rsa) >= 2 ==> key_choice(rsa, pkcs8) == Err::<Seq<u8>, PemError>(PemError::MultipleKeys),
        keys_found(rsa) == 1 ==> key_choice(rsa, pkcs8) == Ok::<Seq<u8>, PemError>(rsa->0[0]),
        keys_found(rsa) == 0 && keys_found(pkcs8) >= 2 ==> key_choice(rsa, pkcs8) == Err::<Seq<u8>, PemError>(
            PemError::MultipleKeys,
        ),
        keys_found(rsa) == 0 && keys_found(pkcs8) == 1 ==> key_choice(rsa, pkcs8) == Ok::<Seq<u8>, PemError>(
            pkcs8->0[0],
        ),
        keys_found(rsa) == 0 && keys_found(pkcs8) == 0 ==> key_choice(rsa, pkcs8) == Err::<Seq<u8>, PemError>(
            PemError::PrivateKey,
        ),
{
}

} // verus!
