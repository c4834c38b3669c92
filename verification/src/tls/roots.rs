//! The root certificates that a peer's identity must lead to.

use crate::bytes;
use crate::bytes::list_len;
use crate::tls::identity;
use rustls::pki_types::CertificateDer;
use rustls::RootCertStore;
use vstd::prelude::*;

verus! {

/// A store of root certificates.
#[verifier::external_type_specification]
#[verifier::external_body]
pub struct ExRootCertStore(RootCertStore);

/// What the library looks at of a root certificate.
pub struct Anchor {
    /// The encoded name of the authority, without its outermost header.
    pub subject: Seq<u8>,
    /// The contents of the encoded public key.
    pub public_key: Seq<u8>,
    /// Whether the root may vouch for some names only.
    pub constrained: bool,
}

/// The roots in a store, in the order in which they were added.
pub uninterp spec fn anchors(store: RootCertStore) -> Seq<Anchor>;

/// The roots that `RootCertStore::add_parsable_certificates` reads from certificates,
/// those that it can, in order.
pub uninterp spec fn parsed_anchors(certs: Seq<Seq<u8>>) -> Seq<Anchor>;

/// What the library looks at of a root certificate, as bytes.
pub struct RootAnchor {
    /// The encoded name of the authority, without its outermost header.
    pub subject: Vec<u8>,
    /// The contents of the encoded public key.
    pub public_key: Vec<u8>,
    /// Whether the root may vouch for some names only.
    pub constrained: bool,
}

impl View for RootAnchor {
    type V = Anchor;

    open spec fn view(&self) -> Anchor {
        Anchor {
            subject: self.subject@,
            public_key: self.public_key@,
            constrained: self.constrained,
        }
    }
}

/// The most bytes that the names of authorities may have that a server tells clients
/// of. The message that holds them has room for 65535 bytes, and the rest of it takes
/// fewer than 255.
pub const MAX_SUBJECTS_LEN: usize = 0xff00;

/// How many bytes a name needs at most besides its own: its length, and its outermost
/// header.
pub const SUBJECT_HEADER_LEN: usize = 8;

/// The names of some authorities.
pub open spec fn subjects(list: Seq<Anchor>) -> Seq<Seq<u8>> {
    list.map_values(|anchor: Anchor| anchor.subject)
}

/// Whether the message in which a server tells clients of authorities has room for
/// their names.
pub open spec fn subjects_fit(list: Seq<Anchor>) -> bool {
    bytes::listed_len(subjects(list), SUBJECT_HEADER_LEN as nat) <= MAX_SUBJECTS_LEN
}

/// The names fit when they have, with eight bytes more for each, at most 65280 bytes, so
/// that the message that holds them has fewer than 65536. Each authority has one name.
pub proof fn law_subjects_room(list: Seq<Anchor>, i: int)
    ensures
        subjects_fit(list) <==> bytes::listed_len(subjects(list), 8) <= 65_280,
        subjects(list).len() == list.len(),
        0 <= i < list.len() ==> subjects(list)[i] == list[i].subject,
{
}

/// Whether the message in which a server tells clients of authorities has room for
/// their names.
pub fn subjects_have_room(list: Vec<RootAnchor>) -> (r: bool)
    ensures
        r == subjects_fit(list@.map_values(|a: RootAnchor| a@)),
{
    let mut names: Vec<Vec<u8>> = Vec::new();
    let mut i: usize = 0;
    while i < list.len()
        invariant
            i <= list@.len(),
            names@.len() == i,
            forall|j: int| 0 <= j < i ==> (#[trigger] names@[j])@ == list@[j].subject@,
        decreases list@.len() - i,
    {
        names.push(identity::copy_bytes(&list[i].subject));
        i = i + 1;
    }
    proof {
        assert(names@.map_values(|item: Vec<u8>| item@) =~= subjects(
            list@.map_values(|a: RootAnchor| a@),
        ));
    }
    list_len(&names, SUBJECT_HEADER_LEN, MAX_SUBJECTS_LEN).is_some()
}

/// `RootCertStore::empty`.
#[verifier::external_body]
pub(crate) fn empty_roots() -> (r: RootCertStore)
    ensures
        anchors(r) == Seq::<Anchor>::empty(),
{
    RootCertStore::empty()
}

/// `RootCertStore::add_parsable_certificates`: adds the roots that can be read, in
/// order, and says how many there were, at most one for each certificate.
#[verifier::external_body]
pub(crate) fn add_roots(store: &mut RootCertStore, certs: Vec<Vec<u8>>) -> (r: usize)
    ensures
        anchors(*final(store)) == anchors(*old(store)) + parsed_anchors(identity::views(certs@)),
        r == parsed_anchors(identity::views(certs@)).len(),
        r <= certs@.len(),
{
    store.add_parsable_certificates(certs.into_iter().map(CertificateDer::from)).0
}

/// `RootCertStore::is_empty`.
#[verifier::external_body]
pub(crate) fn has_no_roots(store: &RootCertStore) -> (r: bool)
    ensures
        r == (anchors(*store).len() == 0),
{
    store.is_empty()
}

/// `RootCertStore::clone`.
#[verifier::external_body]
pub(crate) fn copy_roots(store: &RootCertStore) -> (r: RootCertStore)
    ensures
        anchors(r) == anchors(*store),
{
    store.clone()
}

/// The field `roots` of a `RootCertStore`, of each root what the library looks at.
#[verifier::external_body]
pub(crate) fn root_list(store: &RootCertStore) -> (r: Vec<RootAnchor>)
    ensures
        r@.map_values(|a: RootAnchor| a@) == anchors(*store),
{
    store.roots.iter().map(|root| RootAnchor {
        subject: root.subject.as_ref().to_vec(),
        public_key: root.subject_public_key_info.as_ref().to_vec(),
        constrained: root.name_constraints.is_some(),
    }).collect()
}

} // verus!
