//! Types of the standard library and of the TLS stack that the library carries
//! without looking inside.

use crate::outside::ask_about;
use crate::outside::ask_with;
use rustls::crypto::kx::NamedGroup;
use vstd::prelude::*;

verus! {

/// Where `Debug` output goes.
#[verifier::external_type_specification]
#[verifier::external_body]
pub struct ExFormatter<'a>(core::fmt::Formatter<'a>);

/// The error of `Debug` output.
#[verifier::external_type_specification]
#[verifier::external_body]
pub struct ExFmtError(core::fmt::Error);

/// `DebugStruct::finish_non_exhaustive`: prints the name of a type and no fields.
/// Nothing is claimed of the output.
#[verifier::external_body]
pub(crate) fn debug_opaque(f: &mut core::fmt::Formatter<'_>, name: &str) -> core::fmt::Result {
    f.debug_struct(name).finish_non_exhaustive()
}

/// `DebugStruct::field` and `DebugStruct::finish_non_exhaustive`: prints the name of
/// a type and its capacity. Nothing is claimed of the output.
#[verifier::external_body]
pub(crate) fn debug_capacity(
    f: &mut core::fmt::Formatter<'_>,
    name: &str,
    capacity: usize,
) -> core::fmt::Result {
    f.debug_struct(name).field("capacity", &capacity).finish_non_exhaustive()
}

/// Whether a type printed as its name and no fields, with a result.
pub closed spec fn printed_name(name: Seq<char>, r: core::fmt::Result) -> bool {
    exists|to: &mut core::fmt::Formatter<'_>, text: &str, answer: core::fmt::Result| #[trigger]
        call_ensures(debug_opaque, (to, text), answer) && text@ == name && r == answer
}

/// Whether a type printed as its name and its capacity, with a result.
pub closed spec fn printed_capacity(
    name: Seq<char>,
    capacity: usize,
    r: core::fmt::Result,
) -> bool {
    exists|to: &mut core::fmt::Formatter<'_>, text: &str, answer: core::fmt::Result| #[trigger]
        call_ensures(debug_capacity, (to, text, capacity), answer) && text@ == name && r == answer
}

/// Prints the name of a type and no fields.
pub(crate) fn print_name(f: &mut core::fmt::Formatter<'_>, name: &str) -> (r: core::fmt::Result)
    ensures
        printed_name(name@, r),
{
    ask_about(debug_opaque, f, name)
}

/// Prints the name of a type and its capacity.
pub(crate) fn print_capacity(
    f: &mut core::fmt::Formatter<'_>,
    name: &str,
    capacity: usize,
) -> (r: core::fmt::Result)
    ensures
        printed_capacity(name@, capacity, r),
{
    ask_with(debug_capacity, f, name, capacity)
}

/// The whole seconds of a span, as `Duration::as_secs` gives them.
pub uninterp spec fn whole_seconds(span: std::time::Duration) -> u64;

/// `Duration::from_secs`: a span of that many seconds.
#[verifier::external_body]
pub(crate) fn seconds(n: u64) -> (r: std::time::Duration)
    ensures
        whole_seconds(r) == n,
{
    std::time::Duration::from_secs(n)
}

/// What the TLS stack stores a client's sessions under.
#[verifier::external_type_specification]
#[verifier::external_body]
pub struct ExClientSessionKey<'a>(rustls::client::ClientSessionKey<'a>);

/// A TLS 1.2 session.
#[verifier::external_type_specification]
#[verifier::external_body]
pub struct ExTls12ClientSessionValue(rustls::client::Tls12ClientSessionValue);

/// A TLS 1.3 ticket.
#[verifier::external_type_specification]
#[verifier::external_body]
pub struct ExTls13ClientSessionValue(rustls::client::Tls13ClientSessionValue);

/// A key exchange group.
#[verifier::external_type_specification]
#[verifier::external_body]
pub struct ExNamedGroup(NamedGroup);

/// What a type printed as is what the standard library printed for its name, and for its
/// capacity where it has one.
pub(crate) proof fn law_types_print_their_names(
    name: Seq<char>,
    capacity: usize,
    r: core::fmt::Result,
)
    ensures
        printed_name(name, r) ==> exists|
            to: &mut core::fmt::Formatter<'_>,
            text: &str,
            answer: core::fmt::Result,
        | #[trigger]
            call_ensures(debug_opaque, (to, text), answer) && text@ == name && r == answer,
        printed_capacity(name, capacity, r) ==> exists|
            to: &mut core::fmt::Formatter<'_>,
            text: &str,
            answer: core::fmt::Result,
        | #[trigger]
            call_ensures(debug_capacity, (to, text, capacity), answer) && text@ == name && r
                == answer,
{
}

} // verus!
