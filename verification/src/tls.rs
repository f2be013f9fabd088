//! The identity of a client, as its TLS certificate gives it.

use vstd::prelude::*;
use vstd::string::*;

verus! {

broadcast use vstd::string::group_string_axioms;

/// Who a client is: anonymous, or authenticated under the common name of
/// its certificate.
#[derive(Clone, Debug, PartialEq, Eq)]
pub struct ClientCertificateDetails {
    common_name: Option<String>,
}

impl View for ClientCertificateDetails {
    type V = Option<Seq<char>>;

    closed spec fn view(&self) -> Option<Seq<char>> {
        match self.common_name {
            Some(name) => Some(name@),
            None => None,
        }
    }
}

/// The common name in the subject of the certificate that `der` encodes, as
/// the certificate parser reads it; `None` where `der` is no certificate or
/// its subject names none as text.
pub uninterp spec fn certificate_common_name(der: Seq<u8>) -> Option<Seq<char>>;

/// Parses a DER certificate (`x509_parser::parse_x509_certificate`) and reads
/// the first common name of its subject as text
/// (`X509Name::iter_common_name`, `AttributeTypeAndValue::as_str`). The parser
/// reads nothing but the bytes, so the name is a function of them.
#[verifier::external_body]
fn first_common_name(der: &[u8]) -> (r: Option<String>)
    ensures
        r is Some <==> certificate_common_name(der@) is Some,
        r matches Some(name) ==> Some(name@) == certificate_common_name(der@),
{
    match x509_parser::parse_x509_certificate(der) {
        Ok((_, cert)) => match cert.subject().iter_common_name().next() {
            Some(cn) => cn.as_str().ok().map(|s| s.to_string()),
            None => None,
        },
        Err(_) => None,
    }
}

/// The identity that a chain of peer certificates gives: the common name of
/// its first certificate where that can be read, anonymous otherwise.
pub open spec fn identity_of(chain: Option<Seq<Seq<u8>>>) -> Option<Seq<char>> {
    match chain {
        Some(certs) => if certs.len() > 0 {
            certificate_common_name(certs[0])
        } else {
            None
        },
        None => None,
    }
}

/// The DER encodings of a chain of certificates.
pub open spec fn chain_view(chain: Option<&Vec<Vec<u8>>>) -> Option<Seq<Seq<u8>>> {
    match chain {
        Some(certs) => Some(Seq::new(certs@.len(), |i: int| certs@[i]@)),
        None => None,
    }
}

impl ClientCertificateDetails {
    /// The anonymous identity.
    pub fn new_anonymous() -> (r: ClientCertificateDetails)
        ensures
            r@ is None,
    {
        ClientCertificateDetails { common_name: None }
    }

    /// The identity authenticated under `common_name`.
    pub fn new_authenticated(common_name: &str) -> (r: ClientCertificateDetails)
        ensures
            r@ == Some(common_name@),
    {
        ClientCertificateDetails { common_name: Some(common_name.to_owned()) }
    }

    pub fn is_anonymous(&self) -> (r: bool)
        ensures
            r == (self@ is None),
    {
        self.common_name.is_none()
    }

    /// The name under which the client is known: its common name, or
    /// `anonymous`.
    pub open spec fn spec_common_name(self) -> Seq<char> {
        match self@ {
            Some(name) => name,
            None => "anonymous"@,
        }
    }

    /// The name under which the client is known: its common name, or
    /// `anonymous`.
    pub fn common_name(&self) -> (r: String)
        ensures
            r@ == self.spec_common_name(),
    {
        match &self.common_name {
            Some(name) => name.clone(),
            None => "anonymous".to_owned(),
        }
    }

    /// The name under which the client is known.
    pub fn to_string(&self) -> (r: String)
        ensures
            r@ == self.spec_common_name(),
    {
        self.common_name()
    }
}

/// The identity of the peer of an established session, from the DER
/// encodings of the certificates it presented, if any. A missing or empty
/// chain, a first certificate that cannot be parsed, and a subject without a
/// readable common name all give the anonymous identity; nothing fails.
pub fn extract_client_certificate_details(chain: Option<&Vec<Vec<u8>>>) -> (r:
    ClientCertificateDetails)
    ensures
        r@ == identity_of(chain_view(chain)),
{
    match chain {
        Some(certs) => {
            if certs.len() > 0 {
                ClientCertificateDetails { common_name: first_common_name(certs[0].as_slice()) }
            } else {
                ClientCertificateDetails::new_anonymous()
            }
        },
        None => ClientCertificateDetails::new_anonymous(),
    }
}

} // verus!
