//! What a peer shows to prove who it is.

use vstd::prelude::*;

verus! {

/// The identity that a peer presented.
#[derive(Debug)]
pub enum Identity {
    /// A certificate, and the certificates that lead from it towards a root.
    X509 { end_entity: Vec<u8>, intermediates: Vec<Vec<u8>> },
    /// A bare public key.
    RawPublicKey(Vec<u8>),
    /// A kind of identity that the library does not know.
    Unknown,
}

/// The contents of an identity.
pub enum IdentityView {
    X509 { end_entity: Seq<u8>, intermediates: Seq<Seq<u8>> },
    RawPublicKey(Seq<u8>),
    Unknown,
}

/// The contents of each byte string.
pub open spec fn views(v: Seq<Vec<u8>>) -> Seq<Seq<u8>> {
    v.map_values(|b: Vec<u8>| b@)
}

/// The contents of each borrowed byte string.
pub open spec fn slice_views(v: Seq<&[u8]>) -> Seq<Seq<u8>> {
    v.map_values(|b: &[u8]| b@)
}

impl View for Identity {
    type V = IdentityView;

    open spec fn view(&self) -> IdentityView {
        match self {
            Identity::X509 { end_entity, intermediates } => IdentityView::X509 {
                end_entity: end_entity@,
                intermediates: views(intermediates@),
            },
            Identity::RawPublicKey(key) => IdentityView::RawPublicKey(key@),
            Identity::Unknown => IdentityView::Unknown,
        }
    }
}

/// Whether one of the byte strings is empty.
pub open spec fn has_empty(v: Seq<Seq<u8>>) -> bool {
    exists|i: int| 0 <= i < v.len() && (#[trigger] v[i]).len() == 0
}

impl IdentityView {
    /// The certificates of an identity from the peer's own on, or its bare key. An
    /// identity that holds something empty has none.
    pub open spec fn chain(self) -> Option<Seq<Seq<u8>>> {
        match self {
            IdentityView::X509 { end_entity, intermediates } => {
                let all = seq![end_entity] + intermediates;
                if has_empty(all) {
                    None
                } else {
                    Some(all)
                }
            },
            IdentityView::RawPublicKey(key) => if key.len() == 0 {
                None
            } else {
                Some(seq![key])
            },
            IdentityView::Unknown => None,
        }
    }

    /// The peer's own certificate or bare key, unless it is empty.
    pub open spec fn leaf(self) -> Option<Seq<u8>> {
        match self {
            IdentityView::X509 { end_entity, .. } => if end_entity.len() == 0 {
                None
            } else {
                Some(end_entity)
            },
            IdentityView::RawPublicKey(key) => if key.len() == 0 {
                None
            } else {
                Some(key)
            },
            IdentityView::Unknown => None,
        }
    }
}

/// A copy of a byte string.
pub fn copy_bytes(s: &[u8]) -> (r: Vec<u8>)
    ensures
        r@ == s@,
{
    let mut v: Vec<u8> = Vec::new();
    v.extend_from_slice(s);
    proof {
        assert(v@ =~= s@);
    }
    v
}

/// A copy of a list of byte strings.
pub fn copy_all(list: &Vec<Vec<u8>>) -> (r: Vec<Vec<u8>>)
    ensures
        views(r@) == views(list@),
{
    let mut out: Vec<Vec<u8>> = Vec::new();
    let mut i: usize = 0;
    while i < list.len()
        invariant
            i <= list@.len(),
            out@.len() == i,
            forall|j: int| 0 <= j < i ==> out@[j]@ == list@[j]@,
        decreases list@.len() - i,
    {
        out.push(copy_bytes(&list[i]));
        i = i + 1;
    }
    proof {
        assert(views(out@) =~= views(list@));
    }
    out
}

impl Clone for Identity {
    fn clone(&self) -> (r: Self)
        ensures
            r@ == self@,
    {
        match self {
            Identity::X509 { end_entity, intermediates } => Identity::X509 {
                end_entity: copy_bytes(end_entity),
                intermediates: copy_all(intermediates),
            },
            Identity::RawPublicKey(key) => Identity::RawPublicKey(copy_bytes(key)),
            Identity::Unknown => Identity::Unknown,
        }
    }
}

/// The identity that a certificate chain gives: its first certificate is the
/// peer's own. An empty chain gives none.
pub open spec fn chain_identity(certs: Seq<Seq<u8>>) -> Option<IdentityView> {
    if certs.len() == 0 {
        None
    } else {
        Some(IdentityView::X509 { end_entity: certs[0], intermediates: certs.skip(1) })
    }
}

/// The certificates of an identity from the peer's own on, or its bare key.
pub fn peer_cert_chain<'a>(identity: &'a Identity) -> (r: Option<Vec<&'a [u8]>>)
    ensures
        match identity@.chain() {
            None => r is None,
            Some(chain) => r matches Some(v) && slice_views(v@) == chain,
        },
{
    match identity {
        Identity::X509 { end_entity, intermediates } => {
            let ghost all: Seq<Seq<u8>> = seq![end_entity@] + views(intermediates@);
            if end_entity.len() == 0 {
                proof {
                    assert(all[0].len() == 0);
                }
                return None;
            }
            let mut chain: Vec<&'a [u8]> = Vec::new();
            chain.push(end_entity.as_slice());
            let mut i: usize = 0;
            while i < intermediates.len()
                invariant
                    i <= intermediates@.len(),
                    all == seq![end_entity@] + views(intermediates@),
                    chain@.len() == i + 1,
                    forall|j: int| 0 <= j <= i ==> #[trigger] chain@[j]@ == all[j],
                    forall|j: int| 0 <= j <= i ==> (#[trigger] all[j]).len() > 0,
                    identity@ == (IdentityView::X509 {
                        end_entity: end_entity@,
                        intermediates: views(intermediates@),
                    }),
                decreases intermediates@.len() - i,
            {
                proof {
                    assert(all[i + 1] == intermediates@[i as int]@);
                }
                if intermediates[i].len() == 0 {
                    return None;
                }
                chain.push(intermediates[i].as_slice());
                i = i + 1;
            }
            proof {
                assert(slice_views(chain@) =~= all);
            }
            Some(chain)
        },
        Identity::RawPublicKey(key) => {
            if key.len() == 0 {
                return None;
            }
            let mut chain: Vec<&'a [u8]> = Vec::new();
            chain.push(key.as_slice());
            proof {
                assert(slice_views(chain@) =~= seq![key@]);
            }
            Some(chain)
        },
        Identity::Unknown => None,
    }
}

/// The peer's own certificate or bare key, unless it is empty.
pub fn peer_cert<'a>(identity: &'a Identity) -> (r: Option<&'a [u8]>)
    ensures
        match identity@.leaf() {
            None => r is None,
            Some(leaf) => r matches Some(v) && v@ == leaf,
        },
{
    match identity {
        Identity::X509 { end_entity, .. } => if end_entity.len() == 0 {
            None
        } else {
            Some(end_entity.as_slice())
        },
        Identity::RawPublicKey(key) => if key.len() == 0 {
            None
        } else {
            Some(key.as_slice())
        },
        Identity::Unknown => None,
    }
}

/// The peer's own certificate comes first in its chain.
pub proof fn law_leaf_starts_chain(identity: IdentityView)
    ensures
        identity.chain() matches Some(chain) ==> chain.len() > 0 && identity.leaf() == Some(
            chain[0],
        ),
{
    if let IdentityView::X509 { end_entity, intermediates } = identity {
        let all = seq![end_entity] + intermediates;
        assert(all[0] == end_entity);
    }
}

/// Lists are seen item by item, in order.
pub proof fn law_lists_keep_their_order(v: Seq<Vec<u8>>, s: Seq<&[u8]>, i: int)
    ensures
        views(v).len() == v.len(),
        0 <= i < v.len() ==> views(v)[i] == v[i]@,
        slice_views(s).len() == s.len(),
        0 <= i < s.len() ==> slice_views(s)[i] == s[i]@,
{
}

/// An identity shows what it holds.
pub proof fn law_identity_shows_its_parts(identity: Identity)
    ensures
        identity is X509 <==> identity@ is X509,
        identity is X509 ==> identity@->end_entity == identity->end_entity@
            && identity@->intermediates == views(identity->intermediates@),
        identity is RawPublicKey <==> identity@ is RawPublicKey,
        identity is RawPublicKey ==> identity@->RawPublicKey_0 == identity->RawPublicKey_0@,
        identity is Unknown <==> identity@ is Unknown,
{
}

/// A certificate comes before those that lead from it to a root, and all of them make up
/// the chain, if none is empty. A bare key is a chain of its own. The first of a chain is
/// the peer's own, which is there also when another one is empty.
pub proof fn law_chain_holds_all(end_entity: Seq<u8>, intermediates: Seq<Seq<u8>>, key: Seq<u8>)
    ensures
        ({
            let chain = (IdentityView::X509 { end_entity, intermediates }).chain();
            &&& chain is Some <==> end_entity.len() > 0 && forall|i: int|
                0 <= i < intermediates.len() ==> (#[trigger] intermediates[i]).len() > 0
            &&& chain is Some ==> chain->0.len() == intermediates.len() + 1 && chain->0[0]
                == end_entity && chain->0.skip(1) == intermediates
        }),
        (IdentityView::X509 { end_entity, intermediates }).leaf() is Some <==> end_entity.len() > 0,
        end_entity.len() > 0 ==> (IdentityView::X509 { end_entity, intermediates }).leaf() == Some(
            end_entity,
        ),
        key.len() > 0 ==> IdentityView::RawPublicKey(key).chain() == Some(seq![key]),
        key.len() == 0 ==> IdentityView::RawPublicKey(key).chain() is None,
        key.len() > 0 ==> IdentityView::RawPublicKey(key).leaf() == Some(key),
        key.len() == 0 ==> IdentityView::RawPublicKey(key).leaf() is None,
        IdentityView::Unknown.chain() is None,
        IdentityView::Unknown.leaf() is None,
{
    let all = seq![end_entity] + intermediates;
    assert(all[0] == end_entity);
    assert(all.skip(1) =~= intermediates);
    if has_empty(all) {
        let i = choose|i: int| 0 <= i < all.len() && (#[trigger] all[i]).len() == 0;
        if i > 0 {
            assert(all[i] == intermediates[i - 1]);
        }
    } else {
        assert forall|i: int| 0 <= i < intermediates.len() implies (#[trigger]
        intermediates[i]).len() > 0 by {
            assert(all[i + 1] == intermediates[i]);
        }
    }
}

/// The identity that a chain gives has the chain, if nothing in it is empty.
pub proof fn law_identity_has_its_chain(certs: Seq<Seq<u8>>)
    requires
        forall|i: int| 0 <= i < certs.len() ==> (#[trigger] certs[i]).len() > 0,
    ensures
        certs.len() == 0 <==> chain_identity(certs) is None,
        certs.len() > 0 ==> chain_identity(certs)->0.chain() == Some(certs)
            && chain_identity(certs)->0.leaf() == Some(certs[0]),
{
    if certs.len() > 0 {
        assert(seq![certs[0]] + certs.skip(1) =~= certs);
    }
}

} // verus!
