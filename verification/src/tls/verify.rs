//! Deciding whether a peer is who it claims to be, and recording what it showed.

use crate::outside::ask_about;
use crate::outside::ask_with;
use crate::shared::Beginning;
use crate::shared::Change;
use crate::shared::Shared;
use crate::shared::Sight;
use crate::tls::certificate;
use crate::tls::certificate::common_name_matches_server_name;
use crate::tls::identity::Identity;
use crate::tls::identity::IdentityView;
use crate::tls::legacy;
use crate::tls::legacy::legacy_handshake_signature_valid;
use crate::tls::legacy::legacy_identity_valid_for;
use crate::tls::legacy::Signer;
use crate::tls::legacy::SignerView;
use crate::tls::roots;
use crate::tls::roots::root_list;
use crate::tls::roots::Anchor;
use crate::tls::roots::RootAnchor;
use crate::tls::setup;
use crate::tls::text;
use crate::tls::text::contains;
use rustls::client::danger::HandshakeSignatureValid;
use rustls::client::danger::PeerVerified;
use rustls::client::danger::ServerIdentity;
use rustls::client::danger::ServerVerifier;
use rustls::client::danger::SignatureVerificationInput;
use rustls::client::WebPkiServerVerifier;
use rustls::crypto::Identity as PresentedIdentity;
use rustls::crypto::SignatureScheme;
use rustls::enums::CertificateType;
use rustls::error::CertificateError;
use rustls::server::danger::ClientIdentity;
use rustls::server::danger::ClientVerifier;
use rustls::server::WebPkiClientVerifier;
use rustls::DistinguishedName;
use rustls::Error as TlsError;
use rustls::RootCertStore;
use rustls::SignerPublicKey;
use std::sync::Arc;
use vstd::prelude::*;
use vstd::rwlock::RwLockPredicate;

verus! {

/// The error of the TLS stack.
#[verifier::external_type_specification]
#[verifier::external_body]
pub struct ExTlsError(TlsError);

/// Proof that a peer's identity was accepted.
#[verifier::external_type_specification]
#[verifier::external_body]
pub struct ExPeerVerified(PeerVerified);

/// Proof that a handshake's signature was accepted.
#[verifier::external_type_specification]
#[verifier::external_body]
pub struct ExHandshakeSignatureValid(HandshakeSignatureValid);

/// What a server claims to be.
#[verifier::external_type_specification]
#[verifier::external_body]
pub struct ExServerIdentity<'a>(ServerIdentity<'a>);

/// What a client claims to be.
#[verifier::external_type_specification]
#[verifier::external_body]
pub struct ExClientIdentity<'a>(ClientIdentity<'a>);

/// A signature that a peer made.
#[verifier::external_type_specification]
#[verifier::external_body]
pub struct ExSignatureVerificationInput<'a>(SignatureVerificationInput<'a>);

/// A signature scheme.
#[verifier::external_type_specification]
#[verifier::external_body]
pub struct ExSignatureScheme(SignatureScheme);

/// A kind of certificate.
#[verifier::external_type_specification]
#[verifier::external_body]
pub struct ExCertificateType(CertificateType);

/// The name of an authority.
#[verifier::external_type_specification]
#[verifier::external_body]
pub struct ExDistinguishedName(DistinguishedName);

/// The TLS stack's own check of servers.
#[verifier::external_type_specification]
#[verifier::external_body]
pub struct ExWebPkiServerVerifier(WebPkiServerVerifier);

/// The TLS stack's own check of clients.
#[verifier::external_type_specification]
#[verifier::external_body]
pub struct ExWebPkiClientVerifier(WebPkiClientVerifier);

/// The identity that a peer presented.
#[verifier::external_type_specification]
#[verifier::external_body]
pub struct ExPresentedIdentity<'a>(PresentedIdentity<'a>);

/// What an `Identity` of the TLS stack holds.
pub uninterp spec fn presented(identity: PresentedIdentity<'_>) -> IdentityView;

/// The fields of an `Identity` of the TLS stack.
#[verifier::external_body]
pub(crate) fn plain_identity(identity: &PresentedIdentity<'_>) -> (r: Identity)
    ensures
        r@ == presented(*identity),
{
    match identity {
        PresentedIdentity::X509(certs) => Identity::X509 {
            end_entity: certs.end_entity.as_ref().to_vec(),
            intermediates: certs.intermediates.iter().map(|c| c.as_ref().to_vec()).collect(),
        },
        PresentedIdentity::RawPublicKey(key) => Identity::RawPublicKey(key.as_ref().to_vec()),
        _ => Identity::Unknown,
    }
}

/// What a server claims to be, and when.
pub struct ServerClaim {
    pub identity: Identity,
    pub server_name: String,
    pub now: u64,
}

/// What a server claims to be, and when, by contents.
pub struct ClaimView {
    pub identity: IdentityView,
    pub server_name: Seq<char>,
    pub now: u64,
}

impl View for ServerClaim {
    type V = ClaimView;

    open spec fn view(&self) -> ClaimView {
        ClaimView {
            identity: self.identity@,
            server_name: self.server_name@,
            now: self.now,
        }
    }
}

/// What a `ServerIdentity` holds.
pub uninterp spec fn claimed(identity: ServerIdentity<'_>) -> ClaimView;

/// What a `ClientIdentity` holds.
pub uninterp spec fn shown(identity: ClientIdentity<'_>) -> IdentityView;

/// The fields of a `ServerIdentity`.
#[verifier::external_body]
fn server_claim(identity: &ServerIdentity<'_>) -> (r: ServerClaim)
    ensures
        r@ == claimed(*identity),
{
    ServerClaim {
        identity: plain_identity(identity.identity),
        server_name: identity.server_name.to_str().into_owned(),
        now: identity.now.as_secs(),
    }
}

/// The field `identity` of a `ClientIdentity`.
#[verifier::external_body]
fn client_claim(identity: &ClientIdentity<'_>) -> (r: Identity)
    ensures
        r@ == shown(*identity),
{
    plain_identity(identity.identity)
}

/// A signature that a peer made.
pub struct PeerSignature {
    pub signer: Signer,
    pub scheme: u16,
    pub message: Vec<u8>,
    pub signature: Vec<u8>,
}

/// A signature that a peer made, by contents.
pub struct SignatureView {
    pub signer: SignerView,
    pub scheme: u16,
    pub message: Seq<u8>,
    pub signature: Seq<u8>,
}

impl View for PeerSignature {
    type V = SignatureView;

    open spec fn view(&self) -> SignatureView {
        SignatureView {
            signer: self.signer@,
            scheme: self.scheme,
            message: self.message@,
            signature: self.signature@,
        }
    }
}

impl SignatureView {
    /// Whether the signature is good, from the holder of a version 1 certificate or
    /// of a bare key.
    pub open spec fn is_good(self) -> bool {
        legacy::handshake_signature_valid(
            self.signer,
            self.scheme,
            self.message,
            self.signature,
        )
    }
}

/// What a `SignatureVerificationInput` holds.
pub uninterp spec fn signed_input(input: SignatureVerificationInput<'_>) -> SignatureView;

/// The fields of a `SignatureVerificationInput`.
#[verifier::external_body]
fn peer_signature(input: &SignatureVerificationInput<'_>) -> (r: PeerSignature)
    ensures
        r@ == signed_input(*input),
{
    PeerSignature {
        signer: match input.signer {
            SignerPublicKey::X509(cert) => Signer::X509(cert.as_ref().to_vec()),
            SignerPublicKey::RawPublicKey(key) => Signer::RawPublicKey(key.as_ref().to_vec()),
            _ => Signer::Unknown,
        },
        scheme: u16::from(input.signature.scheme),
        message: input.message.to_vec(),
        signature: input.signature.signature().to_vec(),
    }
}

/// The scheme of a signature that a peer made.
fn scheme_of(input: &SignatureVerificationInput<'_>) -> (r: u16)
    ensures
        r == signed_input(*input).scheme,
{
    let signed: PeerSignature = peer_signature(input);
    proof {
        assert(signed@.scheme == signed.scheme);
    }
    signed.scheme
}

/// Why the TLS stack turned a peer down, as far as the library looks at it.
pub enum Refusal {
    /// The certificate is not good for the server's name.
    Name,
    /// No root vouches for the certificate.
    Issuer,
    /// A certificate error that the TLS stack has no name for, as it prints.
    Unnamed(String),
    /// Anything else.
    Other,
}

/// Why the TLS stack turned a peer down, by contents.
pub enum RefusalView {
    Name,
    Issuer,
    Unnamed(Seq<char>),
    Other,
}

impl View for Refusal {
    type V = RefusalView;

    open spec fn view(&self) -> RefusalView {
        match self {
            Refusal::Name => RefusalView::Name,
            Refusal::Issuer => RefusalView::Issuer,
            Refusal::Unnamed(text) => RefusalView::Unnamed(text@),
            Refusal::Other => RefusalView::Other,
        }
    }
}

/// What a `rustls::Error` says, as far as the library looks at it.
pub uninterp spec fn reason(error: TlsError) -> RefusalView;

/// The variant of a `rustls::Error`, with the text that an unnamed certificate error
/// prints.
#[verifier::external_body]
fn refusal(error: &TlsError) -> (r: Refusal)
    ensures
        r@ == reason(*error),
{
    match error {
        TlsError::InvalidCertificate(CertificateError::NotValidForName) => Refusal::Name,
        TlsError::InvalidCertificate(CertificateError::NotValidForNameContext { .. }) => {
            Refusal::Name
        },
        TlsError::InvalidCertificate(CertificateError::UnknownIssuer) => Refusal::Issuer,
        TlsError::InvalidCertificate(CertificateError::Other(e)) => {
            Refusal::Unnamed(format!("{e:?}"))
        },
        _ => Refusal::Other,
    }
}

/// The text that a certificate of an unknown version is turned down with.
pub open spec fn unsupported_version_text() -> Seq<u8> {
    seq![
        0x55u8, 0x6e, 0x73, 0x75, 0x70, 0x70, 0x6f, 0x72, 0x74, 0x65, 0x64, 0x43, 0x65, 0x72,
        0x74, 0x56, 0x65, 0x72, 0x73, 0x69, 0x6f, 0x6e,
    ]
}

impl RefusalView {
    /// Whether the certificate is not good for the server's name.
    pub open spec fn concerns_name(self) -> bool {
        self is Name
    }

    /// Whether the certificate's version is not supported.
    pub open spec fn concerns_version(self) -> bool {
        self matches RefusalView::Unnamed(text) && text::occurs(
            vstd::utf8::encode_utf8(text),
            unsupported_version_text(),
        )
    }
}

/// Whether the certificate is not good for the server's name.
pub fn certificate_name_error(refusal: &Refusal) -> (r: bool)
    ensures
        r == refusal@.concerns_name(),
{
    match refusal {
        Refusal::Name => true,
        _ => false,
    }
}

/// Whether the certificate's version is not supported.
pub fn unsupported_cert_version_error(refusal: &Refusal) -> (r: bool)
    ensures
        r == refusal@.concerns_version(),
{
    let needle: [u8; 22] = [
        0x55, 0x6e, 0x73, 0x75, 0x70, 0x70, 0x6f, 0x72, 0x74, 0x65, 0x64, 0x43, 0x65, 0x72, 0x74,
        0x56, 0x65, 0x72, 0x73, 0x69, 0x6f, 0x6e,
    ];
    proof {
        assert(needle@ =~= unsupported_version_text());
    }
    match refusal {
        Refusal::Unnamed(text) => contains(text.as_str().as_bytes(), &needle),
        _ => false,
    }
}

/// Whether an identity is a certificate with the server's name as a common name.
pub open spec fn has_common_name(identity: IdentityView, server_name: Seq<u8>) -> bool {
    match identity {
        IdentityView::X509 { end_entity, .. } => certificate::is_named(end_entity, server_name),
        _ => false,
    }
}

/// Whether a server that the TLS stack turned down is accepted all the same: a good
/// version 1 identity, or a certificate that has the server's name as a common
/// name only.
pub open spec fn refused_server_accepted(
    refusal: RefusalView,
    list: Seq<Anchor>,
    claim: ClaimView,
) -> bool {
    let server_name = vstd::utf8::encode_utf8(claim.server_name);
    ||| refusal.concerns_version() && legacy::legacy_identity_valid(
        list,
        claim.identity,
        server_name,
        claim.now,
    )
    ||| refusal.concerns_name() && has_common_name(claim.identity, server_name)
}

/// Whether a certificate that was turned down for its name has the name as a common
/// name.
pub fn verify_identity_with_cn_fallback(claim: &ServerClaim, refusal: &Refusal) -> (r: bool)
    ensures
        r == (refusal@.concerns_name() && has_common_name(
            claim.identity@,
            vstd::utf8::encode_utf8(claim.server_name@),
        )),
{
    if !certificate_name_error(refusal) {
        return false;
    }
    match &claim.identity {
        Identity::X509 { end_entity, .. } => common_name_matches_server_name(
            end_entity,
            claim.server_name.as_str(),
        ),
        _ => false,
    }
}

/// Whether a server that the TLS stack turned down is accepted all the same.
pub fn accept_refused_server(refusal: &Refusal, list: &[RootAnchor], claim: &ServerClaim) -> (r:
    bool)
    ensures
        r == refused_server_accepted(refusal@, legacy::anchor_views(list@), claim@),
{
    if unsupported_cert_version_error(refusal) && legacy_identity_valid_for(
        list,
        &claim.identity,
        claim.server_name.as_str(),
        claim.now,
    ) {
        return true;
    }
    verify_identity_with_cn_fallback(claim, refusal)
}

/// Whether a signature that the TLS stack turned down is accepted all the same: the
/// certificate's version was the reason, and the signature is good.
pub fn accept_refused_signature(refusal: &Refusal, signed: &PeerSignature) -> (r: bool)
    ensures
        r == (refusal@.concerns_version() && signed@.is_good()),
{
    unsupported_cert_version_error(refusal) && legacy_handshake_signature_valid(
        &signed.signer,
        signed.scheme,
        &signed.message,
        &signed.signature,
    )
}

/// A server that was turned down for a reason other than its name or its
/// certificate's version stays turned down.
pub proof fn law_other_refusals_stand(
    refusal: RefusalView,
    list: Seq<Anchor>,
    claim: ClaimView,
)
    requires
        !refusal.concerns_name(),
        !refusal.concerns_version(),
    ensures
        !refused_server_accepted(refusal, list, claim),
{
}

/// A server that the TLS stack turned down is accepted exactly when its certificate's
/// version was the reason and its identity is a good version 1 identity, or its name was
/// the reason and its certificate has the name as a common name.
pub proof fn law_refused_server_is_accepted_for_two_reasons(
    refusal: RefusalView,
    list: Seq<Anchor>,
    claim: ClaimView,
)
    ensures
        refused_server_accepted(refusal, list, claim) <==> {
            let name = vstd::utf8::encode_utf8(claim.server_name);
            ||| refusal is Name && claim.identity is X509 && certificate::is_named(
                claim.identity->end_entity,
                name,
            )
            ||| refusal is Unnamed && text::occurs(
                vstd::utf8::encode_utf8(refusal->Unnamed_0),
                unsupported_version_text(),
            ) && legacy::legacy_identity_valid(list, claim.identity, name, claim.now)
        },
        unsupported_version_text() == vstd::utf8::encode_utf8("UnsupportedCertVersion"@),
{
    reveal_strlit("UnsupportedCertVersion");
    lemma_unsupported_version_text();
}

/// The text that a certificate of an unknown version is turned down with, in letters.
proof fn lemma_unsupported_version_text()
    ensures
        unsupported_version_text() == vstd::utf8::encode_utf8("UnsupportedCertVersion"@),
{
    reveal_strlit("UnsupportedCertVersion");
    let text = "UnsupportedCertVersion"@;
    assert(vstd::utf8::is_ascii_chars(text));
    vstd::utf8::is_ascii_chars_encode_utf8(text);
    assert(vstd::utf8::encode_utf8(text) =~= unsupported_version_text());
}

/// What becomes of the TLS stack's verdict on a signature. A good verdict stands. A bad
/// one turns into a good one exactly when the certificate's version was the reason and
/// the signature is good, and stands otherwise.
pub proof fn law_signature_verdict_stands_unless_version(
    verdict: Result<HandshakeSignatureValid, TlsError>,
    signed: SignatureView,
    r: Result<HandshakeSignatureValid, TlsError>,
)
    requires
        signature_concluded(verdict, signed, r),
    ensures
        r is Ok <==> verdict is Ok || (reason(verdict->Err_0) is Unnamed && text::occurs(
            vstd::utf8::encode_utf8(reason(verdict->Err_0)->Unnamed_0),
            unsupported_version_text(),
        ) && legacy::handshake_signature_valid(
            signed.signer,
            signed.scheme,
            signed.message,
            signed.signature,
        )),
        verdict is Ok ==> r == verdict,
        r is Err ==> r == verdict,
{
}

/// The numbers of the schemes that are offered: each once, and none that signs with
/// SHA-1.
pub proof fn law_offered_schemes()
    ensures
        provider_scheme_numbers() == seq![
            0x0503u16, 0x0403, 0x0603, 0x0807, 0x0806, 0x0805, 0x0804, 0x0601, 0x0501, 0x0401,
        ],
        provider_scheme_numbers().no_duplicates(),
        forall|i: int|
            0 <= i < provider_scheme_numbers().len() ==> #[trigger] provider_scheme_numbers()[i]
                / 256 != 2,
{
}

/// Whether a peer signed with the scheme of that number.
pub open spec fn was_signed_with(scheme: u16) -> bool {
    exists|input: SignatureVerificationInput<'_>| #[trigger] signed_input(input).scheme == scheme
}

/// Whether a client showed an identity.
pub open spec fn was_shown(identity: IdentityView) -> bool {
    exists|claim: ClientIdentity<'_>| #[trigger] shown(claim) == identity
}

/// A recorded scheme is one that a peer signed with.
pub struct HoldsScheme;

impl RwLockPredicate<Option<u16>> for HoldsScheme {
    open spec fn inv(self, v: Option<u16>) -> bool {
        v matches Some(scheme) ==> was_signed_with(scheme)
    }
}

/// A recorded identity is one that a client showed.
pub struct HoldsIdentity;

impl RwLockPredicate<Option<Identity>> for HoldsIdentity {
    open spec fn inv(self, v: Option<Identity>) -> bool {
        v matches Some(identity) ==> was_shown(identity@)
    }
}

/// What a connection's verifiers saw: the scheme of the last signature that was
/// accepted, and the identity that a client presented last.
///
/// The record is shared with the connection, so what it holds may change between
/// any two calls.
pub struct HandshakeRecord {
    signature_scheme: Shared<Option<u16>, HoldsScheme>,
    peer_identity: Shared<Option<Identity>, HoldsIdentity>,
}

/// Whether a scheme was written to a record.
pub open spec fn took_down_scheme(record: HandshakeRecord, scheme: u16) -> bool {
    exists|change: Change<Option<u16>, HoldsScheme>| #[trigger]
        change.place() == record.scheme_place() && change.after() == Some(scheme)
}

/// Whether an identity was written to a record.
pub open spec fn took_down_identity(record: HandshakeRecord, identity: IdentityView) -> bool {
    exists|change: Change<Option<Identity>, HoldsIdentity>| #[trigger]
        change.place() == record.identity_place() && change.after() is Some
            && change.after()->0@ == identity
}

/// Whether a scheme, or none, was taken from a record, which has none then.
pub open spec fn gave_up_scheme(record: HandshakeRecord, scheme: Option<u16>) -> bool {
    exists|change: Change<Option<u16>, HoldsScheme>| #[trigger]
        change.place() == record.scheme_place() && change.before() == scheme
            && change.after() is None
}

/// Whether an identity, or none, was taken from a record, which has none then.
pub open spec fn gave_up_identity(record: HandshakeRecord, identity: Option<Identity>) -> bool {
    exists|change: Change<Option<Identity>, HoldsIdentity>| #[trigger]
        change.place() == record.identity_place() && change.before() == identity
            && change.after() is None
}

/// What is written to a record is there then, as it was given. What is taken from a
/// record was there, and is there no more.
pub proof fn law_record_gives_what_it_got(
    record: HandshakeRecord,
    scheme: u16,
    identity: IdentityView,
    taken: Option<u16>,
    given: Option<Identity>,
)
    ensures
        took_down_scheme(record, scheme) ==> exists|change: Change<Option<u16>, HoldsScheme>|
            #[trigger] change.place() == record.scheme_place() && change.after() == Some(scheme),
        took_down_identity(record, identity) ==> exists|
            change: Change<Option<Identity>, HoldsIdentity>,
        | #[trigger]
            change.place() == record.identity_place() && change.after() is Some
                && change.after()->0@ == identity,
        gave_up_scheme(record, taken) ==> exists|change: Change<Option<u16>, HoldsScheme>|
            #[trigger] change.place() == record.scheme_place() && change.before() == taken
                && change.after() is None,
        gave_up_identity(record, given) ==> exists|
            change: Change<Option<Identity>, HoldsIdentity>,
        | #[trigger]
            change.place() == record.identity_place() && change.before() == given
                && change.after() is None,
{
}

impl HandshakeRecord {
    /// Whether the record began without a scheme and without an identity.
    pub open spec fn began_empty(&self) -> bool {
        self.scheme_place().began_with(None) && self.identity_place().began_with(None)
    }

    /// An empty record.
    pub fn new() -> (r: Self)
        ensures
            r.began_empty(),
    {
        HandshakeRecord {
            signature_scheme: Shared::new(None, Ghost(HoldsScheme)),
            peer_identity: Shared::new(None, Ghost(HoldsIdentity)),
        }
    }

    /// Where the scheme is.
    pub closed spec fn scheme_place(&self) -> Shared<Option<u16>, HoldsScheme> {
        self.signature_scheme
    }

    /// Where the identity is.
    pub closed spec fn identity_place(&self) -> Shared<Option<Identity>, HoldsIdentity> {
        self.peer_identity
    }

    /// Records the scheme of a signature.
    fn record_signature_scheme(&self, scheme: u16)
        requires
            was_signed_with(scheme),
        ensures
            took_down_scheme(*self, scheme),
    {
        let (_, vacancy) = self.signature_scheme.take_out();
        let change: Ghost<Change<Option<u16>, HoldsScheme>> = vacancy.fill(Some(scheme));
        proof {
            assert(change@.place() == self.scheme_place());
        }
    }

    /// Records the identity that a client presented.
    fn record_peer_identity(&self, identity: Identity)
        requires
            was_shown(identity@),
        ensures
            took_down_identity(*self, identity@),
    {
        let (_, vacancy) = self.peer_identity.take_out();
        let change: Ghost<Change<Option<Identity>, HoldsIdentity>> = vacancy.fill(Some(identity));
        proof {
            assert(change@.place() == self.identity_place());
        }
    }

    /// Takes the recorded scheme, which is one that a peer signed with.
    pub(crate) fn take_signature_scheme(&self) -> (r: Option<u16>)
        ensures
            r matches Some(scheme) ==> was_signed_with(scheme),
            gave_up_scheme(*self, r),
    {
        let (scheme, vacancy) = self.signature_scheme.take_out();
        let change: Ghost<Change<Option<u16>, HoldsScheme>> = vacancy.fill(None);
        proof {
            assert(change@.place() == self.scheme_place());
        }
        scheme
    }

    /// Takes the recorded identity, which is one that a client showed.
    pub(crate) fn take_peer_identity(&self) -> (r: Option<Identity>)
        ensures
            r matches Some(identity) ==> was_shown(identity@),
            gave_up_identity(*self, r),
    {
        let (identity, vacancy) = self.peer_identity.take_out();
        let change: Ghost<Change<Option<Identity>, HoldsIdentity>> = vacancy.fill(None);
        proof {
            assert(change@.place() == self.identity_place());
        }
        identity
    }
}

/// `DebugStruct::field` for a recorded scheme and identity, and `DebugStruct::finish`.
/// Nothing is claimed of the output.
#[verifier::external_body]
pub(crate) fn debug_record(
    f: &mut core::fmt::Formatter<'_>,
    scheme: &Option<u16>,
    identity: &Option<Identity>,
) -> core::fmt::Result {
    f.debug_struct("HandshakeRecord")
        .field("signature_scheme", scheme)
        .field("peer_identity", identity)
        .finish()
}

/// Whether a record printed as a scheme and an identity, with a result.
pub closed spec fn printed_record(
    scheme: Option<u16>,
    identity: Option<Identity>,
    r: core::fmt::Result,
) -> bool {
    exists|to: &mut core::fmt::Formatter<'_>, answer: core::fmt::Result| #[trigger]
        call_ensures(debug_record, (to, &scheme, &identity), answer) && r == answer
}

impl core::fmt::Debug for HandshakeRecord {
    /// Prints what the record holds at the moment.
    fn fmt(&self, f: &mut core::fmt::Formatter<'_>) -> (r: core::fmt::Result)
        ensures
            exists|
                scheme: Sight<Option<u16>, HoldsScheme>,
                identity: Sight<Option<Identity>, HoldsIdentity>,
            |
                #![trigger scheme.place(), identity.place()]
                scheme.place() == self.scheme_place() && identity.place() == self.identity_place()
                    && printed_record(scheme.seen(), identity.seen(), r),
    {
        let scheme = self.signature_scheme.look();
        let identity = self.peer_identity.look();
        let r: core::fmt::Result = ask_with(debug_record, f, scheme.value(), identity.value());
        let shown: Ghost<Sight<Option<Identity>, HoldsIdentity>> = identity.end();
        let seen: Ghost<Sight<Option<u16>, HoldsScheme>> = scheme.end();
        proof {
            assert(seen@.place() == self.scheme_place());
            assert(shown@.place() == self.identity_place());
        }
        r
    }
}

/// `PeerVerified::assertion`.
#[verifier::external_body]
fn peer_verified() -> PeerVerified {
    PeerVerified::assertion()
}

/// `HandshakeSignatureValid::assertion`.
#[verifier::external_body]
fn signature_valid() -> HandshakeSignatureValid {
    HandshakeSignatureValid::assertion()
}

/// The verdict of `WebPkiServerVerifier::verify_identity`.
pub uninterp spec fn server_verdict(
    inner: WebPkiServerVerifier,
    identity: ServerIdentity<'_>,
) -> Result<PeerVerified, TlsError>;

/// The verdict of `WebPkiServerVerifier::verify_tls12_signature`.
pub uninterp spec fn server_tls12_verdict(
    inner: WebPkiServerVerifier,
    input: SignatureVerificationInput<'_>,
) -> Result<HandshakeSignatureValid, TlsError>;

/// The verdict of `WebPkiServerVerifier::verify_tls13_signature`.
pub uninterp spec fn server_tls13_verdict(
    inner: WebPkiServerVerifier,
    input: SignatureVerificationInput<'_>,
) -> Result<HandshakeSignatureValid, TlsError>;

/// The verdict of `WebPkiClientVerifier::verify_identity`.
pub uninterp spec fn client_verdict(
    inner: WebPkiClientVerifier,
    identity: ClientIdentity<'_>,
) -> Result<PeerVerified, TlsError>;

/// The verdict of `WebPkiClientVerifier::verify_tls12_signature`.
pub uninterp spec fn client_tls12_verdict(
    inner: WebPkiClientVerifier,
    input: SignatureVerificationInput<'_>,
) -> Result<HandshakeSignatureValid, TlsError>;

/// The verdict of `WebPkiClientVerifier::verify_tls13_signature`.
pub uninterp spec fn client_tls13_verdict(
    inner: WebPkiClientVerifier,
    input: SignatureVerificationInput<'_>,
) -> Result<HandshakeSignatureValid, TlsError>;

/// `WebPkiServerVerifier::verify_identity`, which goes by the identity, the name and
/// the time that it is given.
#[verifier::external_body]
fn webpki_verify_server(inner: &WebPkiServerVerifier, identity: &ServerIdentity<'_>) -> (r: Result<
    PeerVerified,
    TlsError,
>)
    ensures
        r == server_verdict(*inner, *identity),
{
    inner.verify_identity(identity)
}

/// `WebPkiServerVerifier::verify_tls12_signature`.
#[verifier::external_body]
fn webpki_server_tls12(
    inner: &WebPkiServerVerifier,
    input: &SignatureVerificationInput<'_>,
) -> (r: Result<HandshakeSignatureValid, TlsError>)
    ensures
        r == server_tls12_verdict(*inner, *input),
{
    inner.verify_tls12_signature(input)
}

/// `WebPkiServerVerifier::verify_tls13_signature`.
#[verifier::external_body]
fn webpki_server_tls13(
    inner: &WebPkiServerVerifier,
    input: &SignatureVerificationInput<'_>,
) -> (r: Result<HandshakeSignatureValid, TlsError>)
    ensures
        r == server_tls13_verdict(*inner, *input),
{
    inner.verify_tls13_signature(input)
}

/// The number that stands for a `SignatureScheme`.
pub uninterp spec fn scheme_id(scheme: SignatureScheme) -> u16;

/// The number that stands for a `CertificateType`, which is 0 for X.509.
pub uninterp spec fn type_id(kind: CertificateType) -> u8;

/// The schemes that a `WebPkiServerVerifier` takes, by their numbers.
pub uninterp spec fn server_schemes(inner: WebPkiServerVerifier) -> Seq<u16>;

/// The schemes that a `WebPkiClientVerifier` takes, by their numbers.
pub uninterp spec fn client_schemes(inner: WebPkiClientVerifier) -> Seq<u16>;

/// The authorities that a `WebPkiClientVerifier` tells clients of.
pub uninterp spec fn client_hints(inner: WebPkiClientVerifier) -> Seq<DistinguishedName>;

/// Whether a `WebPkiClientVerifier` turns anonymous clients down.
pub uninterp spec fn must_show(inner: WebPkiClientVerifier) -> bool;

/// The schemes that the TLS 1.3 provider can check signatures of, by their numbers,
/// the preferred ones first: ECDSA on three curves, Ed25519, RSA-PSS and RSA with
/// PKCS#1 padding.
pub open spec fn provider_scheme_numbers() -> Seq<u16> {
    seq![
        0x0503u16, 0x0403, 0x0603, 0x0807, 0x0806, 0x0805, 0x0804, 0x0601, 0x0501, 0x0401,
    ]
}

/// Whether schemes are those with the given numbers, in order.
pub open spec fn have_numbers(schemes: Seq<SignatureScheme>, numbers: Seq<u16>) -> bool {
    schemes.len() == numbers.len() && forall|i: int|
        0 <= i < numbers.len() ==> scheme_id(#[trigger] schemes[i]) == numbers[i]
}

/// `WebPkiServerVerifier::supported_verify_schemes`.
#[verifier::external_body]
fn webpki_server_schemes(inner: &WebPkiServerVerifier) -> (r: Vec<SignatureScheme>)
    ensures
        have_numbers(r@, server_schemes(*inner)),
{
    inner.supported_verify_schemes()
}

/// `WebPkiServerVerifier::request_ocsp_response`, which never asks.
#[verifier::external_body]
fn webpki_server_ocsp(inner: &WebPkiServerVerifier) -> (r: bool)
    ensures
        !r,
{
    inner.request_ocsp_response()
}

/// `WebPkiServerVerifier::supported_certificate_types`, which the trait sets to X.509.
#[verifier::external_body]
fn webpki_server_types(inner: &WebPkiServerVerifier) -> (r: &'static [CertificateType])
    ensures
        r@.len() == 1,
        type_id(r@[0]) == 0,
{
    inner.supported_certificate_types()
}

/// `WebPkiServerVerifier::root_hint_subjects`, which the trait sets to nothing.
#[verifier::external_body]
fn webpki_server_hints(inner: &WebPkiServerVerifier) -> (r: Option<Arc<[DistinguishedName]>>)
    ensures
        r is None,
{
    inner.root_hint_subjects()
}

/// How a client checks servers.
pub enum ServerCheck {
    /// Any server is accepted.
    Anyone {
        /// Where the scheme of its signature is recorded.
        record: Arc<HandshakeRecord>,
    },
    /// A server must lead to a root.
    Roots {
        /// The roots of the TLS stack's own check.
        inner: Seq<Anchor>,
        /// The roots that version 1 identities must lead to.
        legacy: Seq<Anchor>,
        /// Where the scheme of its signature is recorded.
        record: Arc<HandshakeRecord>,
    },
}

/// How a server checks clients.
pub enum ClientCheck {
    /// Clients are asked for nothing.
    NotAsked,
    /// Clients are turned down.
    RecordOnly {
        /// Where what they show is recorded.
        record: Arc<HandshakeRecord>,
    },
    /// Clients must lead to a root, or show nothing.
    Roots {
        /// The roots of the TLS stack's own check.
        inner: Seq<Anchor>,
        /// Where what they show is recorded.
        record: Arc<HandshakeRecord>,
    },
}

/// Whether `r` is what becomes of the TLS stack's verdict on a server's signature: it
/// stands, unless the certificate's version was the reason and the signature is good.
pub open spec fn signature_concluded(
    verdict: Result<HandshakeSignatureValid, TlsError>,
    signed: SignatureView,
    r: Result<HandshakeSignatureValid, TlsError>,
) -> bool {
    match verdict {
        Ok(_) => r == verdict,
        Err(e) => if reason(e).concerns_version() && signed.is_good() {
            r is Ok
        } else {
            r == verdict
        },
    }
}

/// `WebPkiServerVerifier::hash_config`. Nothing is claimed of the hash.
#[verifier::external_body]
pub(crate) fn hash_inner<H: std::hash::Hasher>(inner: &WebPkiServerVerifier, mut h: H) {
    inner.hash_config(&mut h)
}

/// Whether the TLS stack's own check was added to a hash.
pub closed spec fn hashed_check<H: std::hash::Hasher>(inner: WebPkiServerVerifier) -> bool {
    exists|h: H| #[trigger] call_ensures(hash_inner::<H>, (&inner, h), ())
}

/// Checks servers as the TLS stack does, but accepts some that it turns down.
#[derive(Debug)]
pub struct RecordingServerVerifier {
    inner: WebPkiServerVerifier,
    record: Arc<HandshakeRecord>,
    root_store: RootCertStore,
}

impl View for RecordingServerVerifier {
    type V = ServerCheck;

    closed spec fn view(&self) -> ServerCheck {
        ServerCheck::Roots {
            inner: setup::server_roots(self.inner),
            legacy: self.roots(),
            record: self.record,
        }
    }
}

impl RecordingServerVerifier {
    /// Puts `inner` under the library's own decisions.
    pub(crate) fn new(
        inner: WebPkiServerVerifier,
        record: Arc<HandshakeRecord>,
        root_store: RootCertStore,
    ) -> (r: Self)
        ensures
            r@ == (ServerCheck::Roots {
                inner: setup::server_roots(inner),
                legacy: roots::anchors(root_store),
                record,
            }),
            r.inner() == inner,
            r.roots() == roots::anchors(root_store),
            r.record() == *record,
    {
        RecordingServerVerifier { inner, record, root_store }
    }

    /// Where what servers show is recorded.
    pub closed spec fn record(&self) -> HandshakeRecord {
        *self.record
    }

    /// The TLS stack's own check.
    pub closed spec fn inner(&self) -> WebPkiServerVerifier {
        self.inner
    }

    /// The roots that version 1 identities must lead to.
    pub closed spec fn roots(&self) -> Seq<Anchor> {
        roots::anchors(self.root_store)
    }

    /// Whether a server that the TLS stack turned down is accepted all the same.
    pub fn accepts_refused(&self, refusal: &Refusal, claim: &ServerClaim) -> (r: bool)
        ensures
            r == refused_server_accepted(refusal@, self.roots(), claim@),
    {
        let list: Vec<RootAnchor> = root_list(&self.root_store);
        proof {
            assert(legacy::anchor_views(list@) =~= self.roots());
        }
        accept_refused_server(refusal, &list, claim)
    }

    /// What becomes of a server that the TLS stack turned down for a reason: it is
    /// accepted, or its refusal stands.
    pub fn conclude_identity(&self, error: TlsError, why: &Refusal, claim: &ServerClaim) -> (r:
        Result<PeerVerified, TlsError>)
        ensures
            r is Ok == refused_server_accepted(why@, self.roots(), claim@),
            r matches Err(e) ==> e == error,
    {
        if self.accepts_refused(why, claim) {
            Ok(peer_verified())
        } else {
            Err(error)
        }
    }

    /// What becomes of a signature that the TLS stack turned down for a reason: it is
    /// accepted, or its refusal stands.
    pub fn verify_legacy_v1_signature(
        &self,
        error: TlsError,
        why: &Refusal,
        signed: &PeerSignature,
    ) -> (r: Result<HandshakeSignatureValid, TlsError>)
        ensures
            r is Ok == (why@.concerns_version() && signed@.is_good()),
            r matches Err(e) ==> e == error,
    {
        if accept_refused_signature(why, signed) {
            Ok(signature_valid())
        } else {
            Err(error)
        }
    }

    /// What becomes of the TLS stack's verdict on a signature.
    fn conclude_signature(
        &self,
        verdict: Result<HandshakeSignatureValid, TlsError>,
        signed: &PeerSignature,
    ) -> (r: Result<HandshakeSignatureValid, TlsError>)
        ensures
            signature_concluded(verdict, signed@, r),
    {
        match verdict {
            Ok(valid) => Ok(valid),
            Err(e) => {
                let why: Refusal = refusal(&e);
                self.verify_legacy_v1_signature(e, &why, signed)
            },
        }
    }
}

impl ServerVerifier for RecordingServerVerifier {
    fn verify_identity(&self, identity: &ServerIdentity<'_>) -> (r: Result<PeerVerified, TlsError>)
        ensures
            match server_verdict(self.inner(), *identity) {
                Ok(verified) => r == Ok::<PeerVerified, TlsError>(verified),
                Err(e) => if refused_server_accepted(reason(e), self.roots(), claimed(*identity)) {
                    r is Ok
                } else {
                    r == Err::<PeerVerified, TlsError>(e)
                },
            },
    {
        match webpki_verify_server(&self.inner, identity) {
            Ok(verified) => Ok(verified),
            Err(e) => {
                let why: Refusal = refusal(&e);
                self.conclude_identity(e, &why, &server_claim(identity))
            },
        }
    }

    fn verify_tls12_signature(&self, input: &SignatureVerificationInput<'_>) -> (r: Result<
        HandshakeSignatureValid,
        TlsError,
    >)
        ensures
            signature_concluded(
                server_tls12_verdict(self.inner(), *input),
                signed_input(*input),
                r,
            ),
            r is Ok ==> took_down_scheme(self.record(), signed_input(*input).scheme),
    {
        let signed: PeerSignature = peer_signature(input);
        let r: Result<HandshakeSignatureValid, TlsError> = self.conclude_signature(
            webpki_server_tls12(&self.inner, input),
            &signed,
        );
        if r.is_ok() {
            self.record.record_signature_scheme(signed.scheme);
        }
        r
    }

    fn verify_tls13_signature(&self, input: &SignatureVerificationInput<'_>) -> (r: Result<
        HandshakeSignatureValid,
        TlsError,
    >)
        ensures
            signature_concluded(
                server_tls13_verdict(self.inner(), *input),
                signed_input(*input),
                r,
            ),
            r is Ok ==> took_down_scheme(self.record(), signed_input(*input).scheme),
    {
        let signed: PeerSignature = peer_signature(input);
        let r: Result<HandshakeSignatureValid, TlsError> = self.conclude_signature(
            webpki_server_tls13(&self.inner, input),
            &signed,
        );
        if r.is_ok() {
            self.record.record_signature_scheme(signed.scheme);
        }
        r
    }

    fn supported_verify_schemes(&self) -> (r: Vec<SignatureScheme>)
        ensures
            have_numbers(r@, server_schemes(self.inner())),
    {
        webpki_server_schemes(&self.inner)
    }

    fn request_ocsp_response(&self) -> (r: bool)
        ensures
            !r,
    {
        webpki_server_ocsp(&self.inner)
    }

    fn supported_certificate_types(&self) -> (r: &'static [CertificateType])
        ensures
            r@.len() == 1,
            type_id(r@[0]) == 0,
    {
        webpki_server_types(&self.inner)
    }

    fn root_hint_subjects(&self) -> (r: Option<Arc<[DistinguishedName]>>)
        ensures
            r is None,
    {
        webpki_server_hints(&self.inner)
    }

    /// Adds the TLS stack's own check to the hash.
    fn hash_config(&self, h: &mut dyn std::hash::Hasher)
        ensures
            hashed_check::<&mut dyn std::hash::Hasher>(self.inner()),
    {
        ask_about(hash_inner, &self.inner, h)
    }
}

/// `WebPkiClientVerifier::verify_identity`, which goes by the identity and the time
/// that it is given.
#[verifier::external_body]
fn webpki_verify_client(inner: &WebPkiClientVerifier, identity: &ClientIdentity<'_>) -> (r: Result<
    PeerVerified,
    TlsError,
>)
    ensures
        r == client_verdict(*inner, *identity),
{
    inner.verify_identity(identity)
}

/// `WebPkiClientVerifier::verify_tls12_signature`.
#[verifier::external_body]
fn webpki_client_tls12(
    inner: &WebPkiClientVerifier,
    input: &SignatureVerificationInput<'_>,
) -> (r: Result<HandshakeSignatureValid, TlsError>)
    ensures
        r == client_tls12_verdict(*inner, *input),
{
    inner.verify_tls12_signature(input)
}

/// `WebPkiClientVerifier::verify_tls13_signature`.
#[verifier::external_body]
fn webpki_client_tls13(
    inner: &WebPkiClientVerifier,
    input: &SignatureVerificationInput<'_>,
) -> (r: Result<HandshakeSignatureValid, TlsError>)
    ensures
        r == client_tls13_verdict(*inner, *input),
{
    inner.verify_tls13_signature(input)
}

/// `WebPkiClientVerifier::root_hint_subjects`.
#[verifier::external_body]
fn webpki_client_hints(inner: &WebPkiClientVerifier) -> (r: Arc<[DistinguishedName]>)
    ensures
        r@ == client_hints(*inner),
{
    inner.root_hint_subjects()
}

/// `WebPkiClientVerifier::client_auth_mandatory`.
#[verifier::external_body]
fn webpki_client_mandatory(inner: &WebPkiClientVerifier) -> (r: bool)
    ensures
        r == must_show(*inner),
{
    inner.client_auth_mandatory()
}

/// `WebPkiClientVerifier::supported_certificate_types`, which the trait sets to X.509.
#[verifier::external_body]
fn webpki_client_types(inner: &WebPkiClientVerifier) -> (r: &'static [CertificateType])
    ensures
        r@.len() == 1,
        type_id(r@[0]) == 0,
{
    inner.supported_certificate_types()
}

/// `WebPkiClientVerifier::supported_verify_schemes`, as numbers.
#[verifier::external_body]
fn webpki_client_schemes(inner: &WebPkiClientVerifier) -> (r: Vec<u16>)
    ensures
        r@ == client_schemes(*inner),
{
    inner.supported_verify_schemes().into_iter().map(u16::from).collect()
}

/// `WebPkiSupportedAlgorithms::supported_schemes` of the TLS 1.3 provider, as
/// numbers.
#[verifier::external_body]
fn provider_schemes() -> (r: Vec<u16>)
    ensures
        r@ == provider_scheme_numbers(),
{
    let algorithms = &rustls_aws_lc_rs::DEFAULT_TLS13_PROVIDER.signature_verification_algorithms;
    algorithms.supported_schemes().into_iter().map(u16::from).collect()
}

/// `SignatureScheme::from` on each number.
#[verifier::external_body]
fn schemes_with_numbers(numbers: &[u16]) -> (r: Vec<SignatureScheme>)
    ensures
        r@.len() == numbers@.len(),
        forall|i: int|
            0 <= i < numbers@.len() ==> scheme_id(#[trigger] r@[i]) == numbers@[i],
{
    numbers.iter().map(|n| SignatureScheme::from(*n)).collect()
}

/// `CertificateError::UnknownIssuer` as a `rustls::Error`: no root vouches for the
/// peer.
#[verifier::external_body]
fn unknown_issuer() -> (r: TlsError)
    ensures
        reason(r) == RefusalView::Issuer,
{
    CertificateError::UnknownIssuer.into()
}

/// No authorities.
#[verifier::external_body]
fn no_hints() -> (r: Arc<[DistinguishedName]>)
    ensures
        r@.len() == 0,
{
    Arc::from([])
}

/// X.509 certificates, and no other kind.
#[verifier::external_body]
fn x509_only() -> (r: &'static [CertificateType])
    ensures
        r@.len() == 1,
        type_id(r@[0]) == 0,
{
    &[CertificateType::X509]
}

/// Checks clients as the TLS stack does, or turns all of them down when there are
/// no roots, and records what they present.
#[derive(Debug)]
pub struct RecordingClientVerifier {
    inner: Option<WebPkiClientVerifier>,
    record: Arc<HandshakeRecord>,
    supported_schemes: Vec<u16>,
}

impl View for RecordingClientVerifier {
    type V = ClientCheck;

    closed spec fn view(&self) -> ClientCheck {
        match self.inner {
            Some(inner) => ClientCheck::Roots {
                inner: setup::client_roots(inner),
                record: self.record,
            },
            None => ClientCheck::RecordOnly { record: self.record },
        }
    }
}

impl RecordingClientVerifier {
    /// The TLS stack's own check, if there are roots that clients may lead to.
    pub closed spec fn inner(&self) -> Option<WebPkiClientVerifier> {
        self.inner
    }

    /// Where what clients show is recorded.
    pub closed spec fn record(&self) -> HandshakeRecord {
        *self.record
    }

    /// The schemes of signatures that can be checked, by their numbers.
    pub closed spec fn schemes(&self) -> Seq<u16> {
        self.supported_schemes@
    }

    /// Records what `inner` is shown.
    pub(crate) fn new(inner: WebPkiClientVerifier, record: Arc<HandshakeRecord>) -> (r: Self)
        ensures
            r.inner() == Some(inner),
            r.schemes() == client_schemes(inner),
            r.record() == *record,
            r@ == (ClientCheck::Roots { inner: setup::client_roots(inner), record }),
    {
        let supported_schemes: Vec<u16> = webpki_client_schemes(&inner);
        RecordingClientVerifier { inner: Some(inner), record, supported_schemes }
    }

    /// Records what clients present, and turns them down.
    pub fn without_roots(record: Arc<HandshakeRecord>) -> (r: Self)
        ensures
            r.inner() is None,
            r.schemes() == provider_scheme_numbers(),
            r.record() == *record,
            r@ == (ClientCheck::RecordOnly { record }),
    {
        RecordingClientVerifier { inner: None, record, supported_schemes: provider_schemes() }
    }
}

impl ClientVerifier for RecordingClientVerifier {
    fn verify_identity(&self, identity: &ClientIdentity<'_>) -> (r: Result<PeerVerified, TlsError>)
        ensures
            match self.inner() {
                Some(inner) => r == client_verdict(inner, *identity),
                None => r is Err && reason(r->Err_0) == RefusalView::Issuer,
            },
            took_down_identity(self.record(), shown(*identity)),
    {
        self.record.record_peer_identity(client_claim(identity));
        match &self.inner {
            Some(inner) => webpki_verify_client(inner, identity),
            None => Err(unknown_issuer()),
        }
    }

    fn verify_tls12_signature(&self, input: &SignatureVerificationInput<'_>) -> (r: Result<
        HandshakeSignatureValid,
        TlsError,
    >)
        ensures
            match self.inner() {
                Some(inner) => r == client_tls12_verdict(inner, *input),
                None => r is Err && reason(r->Err_0) == RefusalView::Issuer,
            },
            r is Ok ==> took_down_scheme(self.record(), signed_input(*input).scheme),
    {
        let verdict: Result<HandshakeSignatureValid, TlsError> = match &self.inner {
            Some(inner) => webpki_client_tls12(inner, input),
            None => Err(unknown_issuer()),
        };
        if verdict.is_ok() {
            self.record.record_signature_scheme(scheme_of(input));
        }
        verdict
    }

    fn verify_tls13_signature(&self, input: &SignatureVerificationInput<'_>) -> (r: Result<
        HandshakeSignatureValid,
        TlsError,
    >)
        ensures
            match self.inner() {
                Some(inner) => r == client_tls13_verdict(inner, *input),
                None => r is Err && reason(r->Err_0) == RefusalView::Issuer,
            },
            r is Ok ==> took_down_scheme(self.record(), signed_input(*input).scheme),
    {
        let verdict: Result<HandshakeSignatureValid, TlsError> = match &self.inner {
            Some(inner) => webpki_client_tls13(inner, input),
            None => Err(unknown_issuer()),
        };
        if verdict.is_ok() {
            self.record.record_signature_scheme(scheme_of(input));
        }
        verdict
    }

    fn root_hint_subjects(&self) -> (r: Arc<[DistinguishedName]>)
        ensures
            match self.inner() {
                Some(inner) => r@ == client_hints(inner),
                None => r@.len() == 0,
            },
    {
        match &self.inner {
            Some(inner) => webpki_client_hints(inner),
            None => no_hints(),
        }
    }

    fn client_auth_mandatory(&self) -> (r: bool)
        ensures
            r == (self.inner() matches Some(inner) && must_show(inner)),
    {
        match &self.inner {
            Some(inner) => webpki_client_mandatory(inner),
            None => false,
        }
    }

    fn offer_client_auth(&self) -> (r: bool)
        ensures
            r,
    {
        true
    }

    fn supported_verify_schemes(&self) -> (r: Vec<SignatureScheme>)
        ensures
            have_numbers(r@, self.schemes()),
    {
        schemes_with_numbers(&self.supported_schemes)
    }

    fn supported_certificate_types(&self) -> (r: &'static [CertificateType])
        ensures
            r@.len() == 1,
            type_id(r@[0]) == 0,
    {
        match &self.inner {
            Some(inner) => webpki_client_types(inner),
            None => x509_only(),
        }
    }
}

/// `Hasher::write` on the bytes of a text. Nothing is claimed of the hash.
#[verifier::external_body]
pub(crate) fn hash_text<H: std::hash::Hasher>(mut h: H, text: &str) {
    h.write(text.as_bytes());
}

/// Whether a text was added to a hash.
pub closed spec fn hashed_text<H: std::hash::Hasher>(text: Seq<char>) -> bool {
    exists|h: H, added: &str| #[trigger]
        call_ensures(hash_text::<H>, (h, added), ()) && added@ == text
}

/// Accepts every server, and records the scheme of its signature.
#[derive(Debug)]
pub struct NoCertificateVerification {
    supported_schemes: Vec<u16>,
    record: Arc<HandshakeRecord>,
}

impl View for NoCertificateVerification {
    type V = ServerCheck;

    closed spec fn view(&self) -> ServerCheck {
        ServerCheck::Anyone { record: self.record }
    }
}

impl NoCertificateVerification {
    /// Where what servers show is recorded.
    pub closed spec fn record(&self) -> HandshakeRecord {
        *self.record
    }

    /// The schemes of signatures that are offered, by their numbers.
    pub closed spec fn schemes(&self) -> Seq<u16> {
        self.supported_schemes@
    }

    /// Accepts every server.
    pub fn new(record: Arc<HandshakeRecord>) -> (r: Self)
        ensures
            r.schemes() == provider_scheme_numbers(),
            r.record() == *record,
            r@ == (ServerCheck::Anyone { record }),
    {
        NoCertificateVerification { supported_schemes: provider_schemes(), record }
    }
}

impl ServerVerifier for NoCertificateVerification {
    fn verify_identity(&self, _identity: &ServerIdentity<'_>) -> (r: Result<PeerVerified, TlsError>)
        ensures
            r is Ok,
    {
        Ok(peer_verified())
    }

    fn verify_tls12_signature(&self, input: &SignatureVerificationInput<'_>) -> (r: Result<
        HandshakeSignatureValid,
        TlsError,
    >)
        ensures
            r is Ok,
            took_down_scheme(self.record(), signed_input(*input).scheme),
    {
        self.record.record_signature_scheme(scheme_of(input));
        Ok(signature_valid())
    }

    fn verify_tls13_signature(&self, input: &SignatureVerificationInput<'_>) -> (r: Result<
        HandshakeSignatureValid,
        TlsError,
    >)
        ensures
            r is Ok,
            took_down_scheme(self.record(), signed_input(*input).scheme),
    {
        self.record.record_signature_scheme(scheme_of(input));
        Ok(signature_valid())
    }

    fn supported_verify_schemes(&self) -> (r: Vec<SignatureScheme>)
        ensures
            have_numbers(r@, self.schemes()),
    {
        schemes_with_numbers(&self.supported_schemes)
    }

    fn request_ocsp_response(&self) -> (r: bool)
        ensures
            !r,
    {
        false
    }

    /// Adds a name of this check to the hash.
    fn hash_config(&self, h: &mut dyn std::hash::Hasher)
        ensures
            hashed_text::<&mut dyn std::hash::Hasher>("quiche-rustls-no-certificate-verification"@),
    {
        ask_about(hash_text, h, "quiche-rustls-no-certificate-verification");
    }
}

/// A record begins without a scheme and without an identity.
pub proof fn law_record_begins_empty(record: HandshakeRecord)
    requires
        record.began_empty(),
    ensures
        exists|beginning: Beginning<Option<u16>, HoldsScheme>| #[trigger]
            beginning.place() == record.scheme_place() && beginning.first() is None,
        exists|beginning: Beginning<Option<Identity>, HoldsIdentity>| #[trigger]
            beginning.place() == record.identity_place() && beginning.first() is None,
{
}

/// Schemes have numbers when there are as many, and each has the number at its place.
pub proof fn law_schemes_have_their_numbers(
    schemes: Seq<SignatureScheme>,
    numbers: Seq<u16>,
    i: int,
)
    requires
        have_numbers(schemes, numbers),
    ensures
        schemes.len() == numbers.len(),
        0 <= i < numbers.len() ==> scheme_id(schemes[i]) == numbers[i],
{
}

/// What a signature, a claim and a refusal show is what they hold.
pub proof fn law_claims_show_their_parts(
    signed: PeerSignature,
    claim: ServerClaim,
    refusal: Refusal,
)
    ensures
        signed@.signer == signed.signer@,
        signed@.scheme == signed.scheme,
        signed@.message == signed.message@,
        signed@.signature == signed.signature@,
        claim@.identity == claim.identity@,
        claim@.server_name == claim.server_name@,
        claim@.now == claim.now,
        refusal is Name <==> refusal@ is Name,
        refusal is Issuer <==> refusal@ is Issuer,
        refusal is Other <==> refusal@ is Other,
        refusal is Unnamed ==> refusal@ == RefusalView::Unnamed(refusal->Unnamed_0@),
{
}

/// A record prints as the scheme and the identity that it holds.
pub(crate) proof fn law_record_prints_what_it_holds(
    scheme: Option<u16>,
    identity: Option<Identity>,
    r: core::fmt::Result,
)
    requires
        printed_record(scheme, identity, r),
    ensures
        exists|to: &mut core::fmt::Formatter<'_>, answer: core::fmt::Result| #[trigger]
            call_ensures(debug_record, (to, &scheme, &identity), answer) && r == answer,
{
}

/// A check adds itself to the hash: the TLS stack's own check, or a text.
pub(crate) proof fn law_check_is_hashed<H: std::hash::Hasher>(
    inner: WebPkiServerVerifier,
    text: Seq<char>,
)
    ensures
        hashed_check::<H>(inner) ==> exists|h: H| #[trigger]
            call_ensures(hash_inner::<H>, (&inner, h), ()),
        hashed_text::<H>(text) ==> exists|h: H, added: &str| #[trigger]
            call_ensures(hash_text::<H>, (h, added), ()) && added@ == text,
{
}

} // verus!
