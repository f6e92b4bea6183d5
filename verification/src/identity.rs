use vstd::prelude::*;
use rustls::pki_types::pem::PemObject;
use rustls::pki_types::{CertificateDer, PrivateKeyDer};
use crate::path::components_view;

verus! {

/// The encoding of a private key, told by the label of its PEM section.
#[derive(Clone, Copy, Debug, PartialEq, Eq, Structural)]
pub enum KeyKind {
    /// `RSA PRIVATE KEY`
    Pkcs1,
    /// `EC PRIVATE KEY`
    Sec1,
    /// `PRIVATE KEY`
    Pkcs8,
}

/// A private key in DER encoding.
#[derive(Debug)]
pub struct PrivateKey {
    pub kind: KeyKind,
    pub der: Vec<u8>,
}

/// Why an identity could not be loaded.
#[derive(Clone, Copy, Debug, PartialEq, Eq, Structural)]
pub enum LoadError {
    /// A file is missing.
    NotFound,
    /// A file holds no item of the kind it is read for, or is malformed.
    ParseError,
}

/// The DER encodings of all `CERTIFICATE` sections of a PEM text, in the
/// order of the text, or `None` where a section of the text is malformed.
pub uninterp spec fn pem_certificates(pem: Seq<u8>) -> Option<Seq<Seq<u8>>>;

/// The first private key section of a PEM text, as its kind and DER
/// encoding, or `None` where the text holds none or is malformed before it.
pub uninterp spec fn pem_private_key(pem: Seq<u8>) -> Option<(KeyKind, Seq<u8>)>;

/// `CertificateDer::pem_slice_iter` of rustls-pki-types, read to its end:
/// every certificate of the text, or `None` at the first error that the
/// iterator yields. The contract only gives the outcome its name.
#[verifier::external_body]
fn parse_certificates(pem: &[u8]) -> (r: Option<Vec<Vec<u8>>>)
    ensures
        r is Some == pem_certificates(pem@) is Some,
        r is Some ==> components_view(r->Some_0@) == pem_certificates(pem@)->Some_0,
{
    CertificateDer::pem_slice_iter(pem)
        .map(|item| item.map(|certificate| certificate.as_ref().to_vec()))
        .collect::<Result<Vec<Vec<u8>>, _>>()
        .ok()
}

/// `PrivateKeyDer::from_pem_slice` of rustls-pki-types: the first private
/// key of the text, or `None` where the call returns an error. The contract
/// only gives the outcome its name.
#[verifier::external_body]
fn parse_private_key(pem: &[u8]) -> (r: Option<PrivateKey>)
    ensures
        r is Some == pem_private_key(pem@) is Some,
        r is Some ==> (r->Some_0.kind, r->Some_0.der@) == pem_private_key(pem@)->Some_0,
{
    match PrivateKeyDer::from_pem_slice(pem) {
        Ok(PrivateKeyDer::Pkcs1(key)) => Some(
            PrivateKey { kind: KeyKind::Pkcs1, der: key.secret_pkcs1_der().to_vec() },
        ),
        Ok(PrivateKeyDer::Sec1(key)) => Some(
            PrivateKey { kind: KeyKind::Sec1, der: key.secret_sec1_der().to_vec() },
        ),
        Ok(PrivateKeyDer::Pkcs8(key)) => Some(
            PrivateKey { kind: KeyKind::Pkcs8, der: key.secret_pkcs8_der().to_vec() },
        ),
        _ => None,
    }
}

/// A server identity: a certificate chain of at least one certificate, leaf
/// first, and exactly one private key.
#[derive(Debug)]
pub struct CertificateBundle {
    chain: Vec<Vec<u8>>,
    key: PrivateKey,
}

impl CertificateBundle {
    #[verifier::type_invariant]
    spec fn has_certificate(self) -> bool {
        self.chain@.len() > 0
    }

    /// The DER encodings of the certificates, in order.
    pub closed spec fn chain_view(&self) -> Seq<Seq<u8>> {
        components_view(self.chain@)
    }

    /// The kind and DER encoding of the private key.
    pub closed spec fn key_view(&self) -> (KeyKind, Seq<u8>) {
        (self.key.kind, self.key.der@)
    }

    /// The certificates, in order.
    pub fn chain(&self) -> (r: &Vec<Vec<u8>>)
        ensures
            components_view(r@) == self.chain_view(),
            r@.len() > 0,
    {
        proof {
            use_type_invariant(self);
        }
        &self.chain
    }

    /// The private key.
    pub fn key(&self) -> (r: &PrivateKey)
        ensures
            (r.kind, r.der@) == self.key_view(),
    {
        &self.key
    }
}

/// The view of the contents of a file that may be missing.
pub open spec fn file_view(file: Option<&[u8]>) -> Option<Seq<u8>> {
    match file {
        None => None,
        Some(contents) => Some(contents@),
    }
}

/// The identity that two files give, or the reason why they give none. The
/// certificate file is looked at first. `chain` and `key` are what the PEM
/// reader made of the files that are there.
pub open spec fn identity(
    certificate_there: bool,
    chain: Option<Seq<Seq<u8>>>,
    key_there: bool,
    key: Option<(KeyKind, Seq<u8>)>,
) -> Result<(Seq<Seq<u8>>, (KeyKind, Seq<u8>)), LoadError> {
    if !certificate_there {
        Err(LoadError::NotFound)
    } else if chain is None || chain->Some_0.len() == 0 {
        Err(LoadError::ParseError)
    } else if !key_there {
        Err(LoadError::NotFound)
    } else if key is None {
        Err(LoadError::ParseError)
    } else {
        Ok((chain->Some_0, key->Some_0))
    }
}

/// Whether `r` is what `outcome` describes.
pub open spec fn loads(
    r: Result<CertificateBundle, LoadError>,
    outcome: Result<(Seq<Seq<u8>>, (KeyKind, Seq<u8>)), LoadError>,
) -> bool {
    match outcome {
        Ok((chain, key)) => r is Ok && r->Ok_0.chain_view() == chain && r->Ok_0.key_view() == key,
        Err(e) => r is Err && r->Err_0 == e,
    }
}

/// Puts an identity together from what the PEM reader made of the two
/// files; `None` for a file that is there means that it did not parse.
pub fn assemble_identity(
    certificate_there: bool,
    chain: Option<Vec<Vec<u8>>>,
    key_there: bool,
    key: Option<PrivateKey>,
) -> (r: Result<CertificateBundle, LoadError>)
    ensures
        loads(
            r,
            identity(
                certificate_there,
                match chain {
                    Some(c) => Some(components_view(c@)),
                    None => None,
                },
                key_there,
                match key {
                    Some(k) => Some((k.kind, k.der@)),
                    None => None,
                },
            ),
        ),
{
    if !certificate_there {
        return Err(LoadError::NotFound);
    }
    let chain = match chain {
        Some(chain) => chain,
        None => {
            return Err(LoadError::ParseError);
        },
    };
    if chain.len() == 0 {
        return Err(LoadError::ParseError);
    }
    if !key_there {
        return Err(LoadError::NotFound);
    }
    match key {
        Some(key) => Ok(CertificateBundle { chain, key }),
        None => Err(LoadError::ParseError),
    }
}

/// Loads a server identity from the contents of the certificate file and of
/// the key file, `None` standing for a file that is missing. The
/// certificate file must hold one certificate or more, the key file a
/// private key.
pub fn load_identity(certificate_file: Option<&[u8]>, key_file: Option<&[u8]>) -> (r: Result<
    CertificateBundle,
    LoadError,
>)
    ensures
        loads(
            r,
            identity(
                certificate_file is Some,
                match certificate_file {
                    Some(pem) => pem_certificates(pem@),
                    None => None,
                },
                key_file is Some,
                match key_file {
                    Some(pem) => pem_private_key(pem@),
                    None => None,
                },
            ),
        ),
        certificate_file is None || key_file is None ==> r is Err,
{
    let chain = match certificate_file {
        Some(pem) => parse_certificates(pem),
        None => None,
    };
    let key = match key_file {
        Some(pem) => parse_private_key(pem),
        None => None,
    };
    assemble_identity(certificate_file.is_some(), chain, key_file.is_some(), key)
}

} // verus!
