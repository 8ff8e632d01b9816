//! What the host shows of itself on an encrypted connection.

use crate::crypto::{certified, certify};
use crate::text::complains;
use vstd::prelude::*;

verus! {

/// A certificate and its private key, both in DER form.
#[derive(Debug)]
pub struct ClientIdentity {
    /// The certificate, which the key signs for itself.
    pub certificate: Vec<u8>,
    /// The private key.
    pub key: Vec<u8>,
}

/// The identity that the private key of the host gives, which is in PKCS #8 PEM
/// form.
pub fn client_identity(pem: &str) -> (identity: Result<ClientIdentity, String>)
    ensures
        match certified(pem@) {
            Ok((certificate, key)) => {
                &&& identity is Ok
                &&& identity->Ok_0.certificate@ == certificate
                &&& identity->Ok_0.key@ == key
            },
            Err(message) => complains(identity, message),
        },
{
    match certify(pem) {
        Ok((certificate, key)) => Ok(ClientIdentity { certificate, key }),
        Err(message) => Err(message),
    }
}

} // verus!
