//! Packet keys that the TLS stack hands out.

use rustls::quic::DirectionalKeys;
use rustls::quic::Secrets;
use vstd::prelude::*;

verus! {

/// The keys of one direction of a connection.
#[verifier::external_type_specification]
#[verifier::external_body]
pub struct ExDirectionalKeys(DirectionalKeys);

/// What the keys after a key update are made from.
#[verifier::external_type_specification]
#[verifier::external_body]
pub struct ExSecrets(Secrets);

/// Keys that open the packets of the peer.
pub struct Open {
    pub keys: DirectionalKeys,
    pub next: Option<Secrets>,
}

/// Keys that seal packets for the peer.
pub struct Seal {
    pub keys: DirectionalKeys,
    pub next: Option<Secrets>,
}

impl Open {
    /// Takes keys of the TLS stack, with the secrets for a key update if there can
    /// be one.
    pub fn from_rustls(keys: DirectionalKeys, next: Option<Secrets>) -> (r: Self)
        ensures
            r == (Open { keys, next }),
    {
        Open { keys, next }
    }
}

impl Seal {
    /// Takes keys of the TLS stack, with the secrets for a key update if there can
    /// be one.
    pub fn from_rustls(keys: DirectionalKeys, next: Option<Secrets>) -> (r: Self)
        ensures
            r == (Seal { keys, next }),
    {
        Seal { keys, next }
    }
}

} // verus!
