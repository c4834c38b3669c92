//! Reading X.509 certificates.

use crate::tls::der;
use crate::tls::der::DerReader;
use crate::tls::der::Element;
use crate::tls::der::SEQUENCE;
use crate::tls::text;
use crate::tls::text::eq_ignore_case;
use crate::tls::text::same_bytes;
use crate::tls::time;
use crate::tls::time::der_time;
use vstd::prelude::*;
use vstd::slice::slice_subrange;
use vstd::string::StringSliceAdditionalSpecFns;

verus! {

/// Tag of a DER `SET`.
pub const SET_OF: u8 = 0x31;

/// Tag of a DER object identifier.
pub const OBJECT_IDENTIFIER: u8 = 0x06;

/// Tag of a DER `BIT STRING`.
pub const BIT_STRING: u8 = 0x03;

/// Tag of the version field, which only certificates newer than version 1 have.
pub const VERSION: u8 = 0xa0;

/// Tag of a DER `UTF8String`.
pub const UTF8_STRING: u8 = 0x0c;

/// Tag of a DER `PrintableString`.
pub const PRINTABLE_STRING: u8 = 0x13;

/// Tag of a DER `IA5String`.
pub const IA5_STRING: u8 = 0x16;

/// The object identifier of the common name attribute.
pub open spec fn common_name_oid() -> Seq<u8> {
    seq![0x55u8, 0x04, 0x03]
}

/// The object identifier of RSA signatures over SHA-256 digests.
pub open spec fn sha256_rsa_oid() -> Seq<u8> {
    seq![0x2au8, 0x86, 0x48, 0x86, 0xf7, 0x0d, 0x01, 0x01, 0x0b]
}

/// What the outermost sequence of a certificate holds.
pub open spec fn certificate_body(cert: Seq<u8>) -> Option<Seq<u8>> {
    match der::tagged_at(cert, 0, SEQUENCE) {
        Some(e) => Some(e.value),
        None => None,
    }
}

/// The part of a certificate that is signed.
pub open spec fn signed_part(cert: Seq<u8>) -> Option<Element> {
    match certificate_body(cert) {
        Some(body) => der::tagged_at(body, 0, SEQUENCE),
        None => None,
    }
}

/// Whether the signed part starts with a version field.
pub open spec fn has_version(tbs: Seq<u8>) -> bool {
    tbs.len() > 0 && tbs[0] == VERSION
}

/// Where in the signed part the serial number stands.
pub open spec fn first_field(tbs: Seq<u8>) -> nat {
    if has_version(tbs) {
        1
    } else {
        0
    }
}

/// The subject of a certificate: the fifth field after the version.
pub open spec fn subject_of(cert: Seq<u8>) -> Option<Seq<u8>> {
    match signed_part(cert) {
        Some(tbs) => match der::tagged_at(tbs.value, first_field(tbs.value) + 4, SEQUENCE) {
            Some(e) => Some(e.value),
            None => None,
        },
        None => None,
    }
}

/// The encoded public key of a certificate: the sixth field after the version.
pub open spec fn public_key_of(cert: Seq<u8>) -> Option<Seq<u8>> {
    match signed_part(cert) {
        Some(tbs) => match der::tagged_at(tbs.value, first_field(tbs.value) + 5, SEQUENCE) {
            Some(e) => Some(e.raw),
            None => None,
        },
        None => None,
    }
}

/// The common name that a relative distinguished name holds, as bytes of UTF-8.
///
/// Only the first attribute of the set counts.
pub open spec fn common_name_of(set: Element) -> Option<Seq<u8>> {
    if set.tag != SET_OF {
        None
    } else {
        match der::tagged_at(set.value, 0, SEQUENCE) {
            None => None,
            Some(attribute) => match der::tagged_at(attribute.value, 0, OBJECT_IDENTIFIER) {
                None => None,
                Some(oid) => match der::element_at(attribute.value, 1) {
                    None => None,
                    Some(name) => if oid.value == common_name_oid() && (name.tag == UTF8_STRING
                        || name.tag == PRINTABLE_STRING || name.tag == IA5_STRING) && vstd::utf8::valid_utf8(
                        name.value,
                    ) {
                        Some(name.value)
                    } else {
                        None
                    },
                },
            },
        }
    }
}

/// The common names in a subject, in order.
pub open spec fn names_in(subject: Seq<u8>) -> Seq<Seq<u8>>
    decreases subject.len(),
{
    match der::head(subject) {
        None => Seq::empty(),
        Some(e) => if e.rest.len() < subject.len() {
            match common_name_of(e) {
                Some(name) => seq![name] + names_in(e.rest),
                None => names_in(e.rest),
            }
        } else {
            Seq::empty()
        },
    }
}

/// The common names of a certificate's subject. Without a readable subject there
/// are none.
pub open spec fn names_of(cert: Seq<u8>) -> Seq<Seq<u8>> {
    match subject_of(cert) {
        Some(subject) => names_in(subject),
        None => Seq::empty(),
    }
}

/// Whether one of the certificate's common names is `name`, whatever its case.
pub open spec fn is_named(cert: Seq<u8>, name: Seq<u8>) -> bool {
    exists|i: int|
        0 <= i < names_of(cert).len() && text::same_ignoring_case(#[trigger] names_of(cert)[i], name)
}

/// What a version 1 certificate says.
pub struct LegacyFields {
    /// The encoding of the signed part.
    pub tbs: Seq<u8>,
    /// The contents of the signature algorithm.
    pub signature_algorithm: Seq<u8>,
    /// The first second of the validity period.
    pub not_before: u64,
    /// The last second of the validity period.
    pub not_after: u64,
    /// The signature's bytes.
    pub signature: Seq<u8>,
}

/// The start and end of a validity period.
pub open spec fn validity_of(validity: Seq<u8>) -> Option<(u64, u64)> {
    match (der::element_at(validity, 0), der::element_at(validity, 1)) {
        (Some(from), Some(to)) => match (
            time::time_value(from.tag, from.value),
            time::time_value(to.tag, to.value),
        ) {
            (Some(from), Some(to)) => Some((from, to)),
            _ => None,
        },
        _ => None,
    }
}

/// Whether the fields of the signed part of a version 1 certificate are there: a
/// serial number, the algorithm, the issuer, a validity period, the subject and
/// the public key.
pub open spec fn has_legacy_fields(tbs: Seq<u8>, algorithm: Seq<u8>) -> bool {
    &&& !has_version(tbs)
    &&& der::element_at(tbs, 0) is Some
    &&& der::tagged_at(tbs, 1, SEQUENCE) matches Some(own)
    &&& own.value == algorithm
    &&& der::tagged_at(tbs, 2, SEQUENCE) is Some
    &&& der::tagged_at(tbs, 3, SEQUENCE) is Some
    &&& der::element_at(tbs, 4) is Some
    &&& der::tagged_at(tbs, 5, SEQUENCE) is Some
}

/// What a version 1 certificate says, if `cert` is one.
///
/// Both places that name the signature algorithm agree, and the signature fills
/// whole bytes.
pub open spec fn legacy_fields(cert: Seq<u8>) -> Option<LegacyFields> {
    match certificate_body(cert) {
        None => None,
        Some(body) => match (
            der::tagged_at(body, 0, SEQUENCE),
            der::tagged_at(body, 1, SEQUENCE),
            der::tagged_at(body, 2, BIT_STRING),
        ) {
            (Some(tbs), Some(algorithm), Some(signature)) => if has_legacy_fields(
                tbs.value,
                algorithm.value,
            ) && signature.value.len() > 0 && signature.value[0] == 0 {
                match validity_of(der::tagged_at(tbs.value, 3, SEQUENCE)->0.value) {
                    Some((not_before, not_after)) => Some(
                        LegacyFields {
                            tbs: tbs.raw,
                            signature_algorithm: algorithm.value,
                            not_before,
                            not_after,
                            signature: signature.value.skip(1),
                        },
                    ),
                    None => None,
                }
            } else {
                None
            },
            _ => None,
        },
    }
}

/// Whether a signature algorithm is RSA over SHA-256.
pub open spec fn is_sha256_rsa(algorithm: Seq<u8>) -> bool {
    der::tagged_at(algorithm, 0, OBJECT_IDENTIFIER) matches Some(oid) && oid.value == sha256_rsa_oid()
}

/// A version 1 certificate, read.
pub struct LegacyCertificate<'a> {
    /// The encoding of the signed part.
    pub tbs: &'a [u8],
    /// The contents of the signature algorithm.
    pub signature_algorithm: &'a [u8],
    /// The first second of the validity period.
    pub not_before: u64,
    /// The last second of the validity period.
    pub not_after: u64,
    /// The signature's bytes.
    pub signature: &'a [u8],
}

impl<'a> View for LegacyCertificate<'a> {
    type V = LegacyFields;

    open spec fn view(&self) -> LegacyFields {
        LegacyFields {
            tbs: self.tbs@,
            signature_algorithm: self.signature_algorithm@,
            not_before: self.not_before,
            not_after: self.not_after,
            signature: self.signature@,
        }
    }
}

/// The element at position `i`: its tag, its contents and its whole encoding.
fn read_element<'a>(input: &'a [u8], i: usize) -> (r: Option<(u8, &'a [u8], &'a [u8])>)
    ensures
        match der::element_at(input@, i as nat) {
            None => r is None,
            Some(e) => r matches Some((tag, value, raw)) && tag == e.tag && value@ == e.value
                && raw@ == e.raw,
        },
{
    let mut reader: DerReader<'a> = DerReader::new(input);
    let mut left: usize = i;
    while left > 0
        invariant
            left <= i,
            der::element_at(input@, i as nat) == der::element_at(reader.input@, left as nat),
        decreases left,
    {
        match reader.next_raw() {
            Some(Some(_)) => {},
            _ => {
                return None;
            },
        }
        left = left - 1;
    }
    match reader.next_raw() {
        Some(found) => found,
        None => None,
    }
}

/// The element at position `i`, if it carries `tag`: its contents and its whole
/// encoding.
fn read_tagged<'a>(input: &'a [u8], i: usize, tag: u8) -> (r: Option<(&'a [u8], &'a [u8])>)
    ensures
        match der::tagged_at(input@, i as nat, tag) {
            None => r is None,
            Some(e) => r matches Some((value, raw)) && value@ == e.value && raw@ == e.raw,
        },
{
    match read_element(input, i) {
        Some((found, value, raw)) => if found == tag {
            Some((value, raw))
        } else {
            None
        },
        None => None,
    }
}

/// The contents of the signed part of a certificate.
fn read_signed_part<'a>(cert: &'a [u8]) -> (r: Option<&'a [u8]>)
    ensures
        match signed_part(cert@) {
            None => r is None,
            Some(tbs) => r matches Some(value) && value@ == tbs.value,
        },
{
    match read_tagged(cert, 0, SEQUENCE) {
        None => None,
        Some((body, _)) => match read_tagged(body, 0, SEQUENCE) {
            None => None,
            Some((tbs, _)) => Some(tbs),
        },
    }
}

/// Where in the signed part the serial number stands.
fn serial_index(tbs: &[u8]) -> (r: usize)
    ensures
        r == first_field(tbs@),
{
    match DerReader::new(tbs).peek_tag() {
        Some(tag) => if tag == VERSION {
            1
        } else {
            0
        },
        None => 0,
    }
}

/// The contents of a certificate's subject.
pub fn certificate_subject<'a>(cert: &'a [u8]) -> (r: Option<&'a [u8]>)
    ensures
        match subject_of(cert@) {
            None => r is None,
            Some(subject) => r matches Some(value) && value@ == subject,
        },
{
    match read_signed_part(cert) {
        None => None,
        Some(tbs) => match read_tagged(tbs, serial_index(tbs) + 4, SEQUENCE) {
            None => None,
            Some((subject, _)) => Some(subject),
        },
    }
}

/// The whole encoding of a certificate's public key.
pub fn certificate_subject_public_key_info<'a>(cert: &'a [u8]) -> (r: Option<&'a [u8]>)
    ensures
        match public_key_of(cert@) {
            None => r is None,
            Some(key) => r matches Some(raw) && raw@ == key,
        },
{
    match read_signed_part(cert) {
        None => None,
        Some(tbs) => match read_tagged(tbs, serial_index(tbs) + 5, SEQUENCE) {
            None => None,
            Some((_, raw)) => Some(raw),
        },
    }
}

/// The error of `std::str::from_utf8`.
#[verifier::external_type_specification]
#[verifier::external_body]
pub struct ExUtf8Error(std::str::Utf8Error);

/// `std::str::from_utf8` takes exactly the byte strings that are UTF-8, and gives
/// the text with those bytes.
pub assume_specification[ std::str::from_utf8 ](v: &[u8]) -> (r: Result<
    &str,
    std::str::Utf8Error,
>)
    ensures
        r is Ok <==> vstd::utf8::valid_utf8(v@),
        r matches Ok(text) ==> text.spec_bytes() == v@,
;

/// The common name that an element of a subject holds.
fn common_name<'a>(tag: u8, set: &'a [u8]) -> (r: Option<&'a str>)
    ensures
        forall|e: Element|
            e.tag == tag && e.value == set@ ==> match #[trigger] common_name_of(e) {
                None => r is None,
                Some(name) => r matches Some(text) && text.spec_bytes() == name,
            },
{
    if tag != SET_OF {
        return None;
    }
    let attribute: &'a [u8] = match read_tagged(set, 0, SEQUENCE) {
        None => {
            return None;
        },
        Some((value, _)) => value,
    };
    let oid: &'a [u8] = match read_tagged(attribute, 0, OBJECT_IDENTIFIER) {
        None => {
            return None;
        },
        Some((value, _)) => value,
    };
    let expected: [u8; 3] = [0x55, 0x04, 0x03];
    proof {
        assert(expected@ =~= common_name_oid());
    }
    if !same_bytes(oid, &expected) {
        return None;
    }
    match read_element(attribute, 1) {
        None => None,
        Some((kind, value, _)) => if kind == UTF8_STRING || kind == PRINTABLE_STRING || kind
            == IA5_STRING {
            match std::str::from_utf8(value) {
                Ok(text) => Some(text),
                Err(_) => None,
            }
        } else {
            None
        },
    }
}

/// The bytes of each text.
pub open spec fn texts(names: Seq<&str>) -> Seq<Seq<u8>> {
    names.map_values(|name: &str| name.spec_bytes())
}

/// The common names of a certificate's subject, in order.
pub fn common_names<'a>(cert: &'a [u8]) -> (r: Vec<&'a str>)
    ensures
        texts(r@) == names_of(cert@),
{
    let mut names: Vec<&'a str> = Vec::new();
    let subject: &'a [u8] = match certificate_subject(cert) {
        None => {
            proof {
                assert(texts(names@) =~= Seq::<Seq<u8>>::empty());
            }
            return names;
        },
        Some(subject) => subject,
    };
    let mut reader: DerReader<'a> = DerReader::new(subject);
    proof {
        assert(texts(names@) + names_in(reader.input@) =~= names_in(subject@));
    }
    loop
        invariant
            subject_of(cert@) == Some(subject@),
            texts(names@) + names_in(reader.input@) == names_in(subject@),
        decreases reader.input@.len(),
    {
        let ghost before: Seq<u8> = reader.input@;
        let ghost known: Seq<&'a str> = names@;
        match reader.next() {
            Some(Some((tag, value))) => {
                let ghost e: Element = der::head(before)->0;
                proof {
                    der::law_element_splits_input(before);
                    assert(common_name_of(e) == common_name_of(e));
                }
                match common_name(tag, value) {
                    Some(name) => {
                        names.push(name);
                        proof {
                            assert(texts(names@) =~= texts(known) + seq![name.spec_bytes()]);
                            assert(names_in(before) == seq![name.spec_bytes()] + names_in(e.rest));
                            assert(texts(known) + (seq![name.spec_bytes()] + names_in(e.rest))
                                =~= texts(names@) + names_in(e.rest));
                        }
                    },
                    None => {},
                }
            },
            _ => {
                proof {
                    assert(names_in(before) =~= Seq::<Seq<u8>>::empty());
                    assert(texts(names@) + names_in(before) =~= texts(names@));
                }
                return names;
            },
        }
    }
}

/// Whether one of the certificate's common names is the server's name, whatever
/// its case.
pub fn common_name_matches_server_name(cert: &[u8], server_name: &str) -> (r: bool)
    ensures
        r == is_named(cert@, server_name.spec_bytes()),
{
    let names: Vec<&str> = common_names(cert);
    let wanted: &[u8] = server_name.as_bytes();
    let mut i: usize = 0;
    while i < names.len()
        invariant
            i <= names@.len(),
            texts(names@) == names_of(cert@),
            wanted@ == server_name.spec_bytes(),
            forall|j: int|
                0 <= j < i ==> !text::same_ignoring_case(
                    #[trigger] names_of(cert@)[j],
                    server_name.spec_bytes(),
                ),
        decreases names@.len() - i,
    {
        let name: &str = names[i];
        proof {
            assert(texts(names@)[i as int] == name.spec_bytes());
        }
        if eq_ignore_case(name.as_bytes(), wanted) {
            return true;
        }
        i = i + 1;
    }
    proof {
        assert(names_of(cert@).len() == names@.len());
    }
    false
}

/// The moment that the element at position `i` of a validity period names.
fn read_time(validity: &[u8], i: usize) -> (r: Option<u64>)
    ensures
        r == match der::element_at(validity@, i as nat) {
            Some(e) => time::time_value(e.tag, e.value),
            None => None::<u64>,
        },
{
    match read_element(validity, i) {
        Some((tag, value, _)) => der_time(tag, value),
        None => None,
    }
}

/// Reads a version 1 certificate, if `cert` is one.
pub fn legacy_v1_certificate<'a>(cert: &'a [u8]) -> (r: Option<LegacyCertificate<'a>>)
    ensures
        match legacy_fields(cert@) {
            None => r is None,
            Some(fields) => r matches Some(legacy) && legacy@ == fields,
        },
{
    let body: &'a [u8] = match read_tagged(cert, 0, SEQUENCE) {
        None => {
            return None;
        },
        Some((value, _)) => value,
    };
    let (tbs, tbs_raw): (&'a [u8], &'a [u8]) = match read_tagged(body, 0, SEQUENCE) {
        None => {
            return None;
        },
        Some(found) => found,
    };
    let signature_algorithm: &'a [u8] = match read_tagged(body, 1, SEQUENCE) {
        None => {
            return None;
        },
        Some((value, _)) => value,
    };
    let signature: &'a [u8] = match read_tagged(body, 2, BIT_STRING) {
        None => {
            return None;
        },
        Some((value, _)) => value,
    };
    if serial_index(tbs) != 0 {
        return None;
    }
    if read_element(tbs, 0).is_none() {
        return None;
    }
    match read_tagged(tbs, 1, SEQUENCE) {
        None => {
            return None;
        },
        Some((own, _)) => {
            if !same_bytes(own, signature_algorithm) {
                return None;
            }
        },
    }
    if read_tagged(tbs, 2, SEQUENCE).is_none() {
        return None;
    }
    let validity: &'a [u8] = match read_tagged(tbs, 3, SEQUENCE) {
        None => {
            return None;
        },
        Some((value, _)) => value,
    };
    let (not_before, not_after): (u64, u64) = match (
        read_time(validity, 0),
        read_time(validity, 1),
    ) {
        (Some(from), Some(to)) => (from, to),
        _ => {
            return None;
        },
    };
    if read_element(tbs, 4).is_none() || read_tagged(tbs, 5, SEQUENCE).is_none() {
        return None;
    }
    if signature.len() == 0 || signature[0] != 0 {
        return None;
    }
    let signature: &'a [u8] = slice_subrange(signature, 1, signature.len());
    Some(LegacyCertificate { tbs: tbs_raw, signature_algorithm, not_before, not_after, signature })
}

/// Whether `now`, in seconds since the start of 1970, lies in the validity period.
/// Both ends belong to it.
pub fn valid_at(cert: &LegacyCertificate<'_>, now: u64) -> (r: bool)
    ensures
        r == (cert.not_before <= now <= cert.not_after),
{
    cert.not_before <= now && now <= cert.not_after
}

/// Whether a signature algorithm is RSA over SHA-256.
pub fn legacy_sha256_rsa_signature_algorithm(algorithm: &[u8]) -> (r: bool)
    ensures
        r == is_sha256_rsa(algorithm@),
{
    let expected: [u8; 9] = [0x2a, 0x86, 0x48, 0x86, 0xf7, 0x0d, 0x01, 0x01, 0x0b];
    proof {
        assert(expected@ =~= sha256_rsa_oid());
    }
    match read_tagged(algorithm, 0, OBJECT_IDENTIFIER) {
        None => false,
        Some((oid, _)) => same_bytes(oid, &expected),
    }
}

/// A version 1 certificate carries no version field, and its common names and
/// its public key are the fields that follow the validity period.
pub proof fn law_legacy_certificate_has_key_and_subject(cert: Seq<u8>)
    requires
        legacy_fields(cert) is Some,
    ensures
        signed_part(cert) matches Some(tbs) && !has_version(tbs.value) && tbs.raw == legacy_fields(
            cert,
        )->0.tbs,
        public_key_of(cert) is Some,
{
}

/// The tags and object identifiers that are looked for: a name is in UTF-8 or a subset of
/// it, the common name has the identifier 2.5.4.3, and RSA over SHA-256 has
/// 1.2.840.113549.1.1.11.
pub proof fn law_tags_and_identifiers()
    ensures
        SEQUENCE == 0x30,
        SET_OF == 0x31,
        OBJECT_IDENTIFIER == 6,
        BIT_STRING == 3,
        VERSION == 0xa0,
        UTF8_STRING == 12,
        PRINTABLE_STRING == 19,
        IA5_STRING == 22,
        common_name_oid() == seq![85u8, 4, 3],
        sha256_rsa_oid() == seq![
            42u8, 134, 72, 134, 247, 13, 1, 1, 11,
        ],
        // 840 is 6 * 128 + 72, and 113549 is (6 * 128 + 119) * 128 + 13.
        (sha256_rsa_oid()[1] - 128) * 128 + sha256_rsa_oid()[2] == 840,
        ((sha256_rsa_oid()[3] - 128) * 128 + sha256_rsa_oid()[4] - 128) * 128
            + sha256_rsa_oid()[5] == 113_549,
{
}

/// A certificate is a sequence whose first element is a sequence, the signed part. In it
/// the subject and then the public key follow the serial number, the algorithm, the issuer
/// and the validity period, with a version field before them or without.
pub proof fn law_fields_of_the_signed_part(cert: Seq<u8>)
    ensures
        signed_part(cert) is Some <==> {
            &&& der::element_at(cert, 0) is Some
            &&& der::element_at(cert, 0)->0.tag == 0x30
            &&& der::element_at(der::element_at(cert, 0)->0.value, 0) is Some
            &&& der::element_at(der::element_at(cert, 0)->0.value, 0)->0.tag == 0x30
        },
        signed_part(cert) is Some ==> signed_part(cert) == der::element_at(
            der::element_at(cert, 0)->0.value,
            0,
        ),
        signed_part(cert) is None ==> subject_of(cert) is None && public_key_of(cert) is None,
        signed_part(cert) is Some ==> {
            let tbs = signed_part(cert)->0.value;
            let skipped: nat = if tbs.len() > 0 && tbs[0] == 0xa0 {
                1
            } else {
                0
            };
            let subject = der::element_at(tbs, skipped + 4);
            let key = der::element_at(tbs, skipped + 5);
            &&& subject_of(cert) is Some <==> subject is Some && subject->0.tag == 0x30
            &&& subject_of(cert) is Some ==> subject_of(cert)->0 == subject->0.value
            &&& public_key_of(cert) is Some <==> key is Some && key->0.tag == 0x30
            &&& public_key_of(cert) is Some ==> public_key_of(cert)->0 == key->0.raw
        },
{
}

/// A relative distinguished name holds a common name when it is a set, its first
/// attribute is a sequence of the identifier of common names and of a text of one of three
/// kinds, and the text is UTF-8. The text is the name.
pub proof fn law_common_name(set: Element)
    ensures
        common_name_of(set) is Some <==> {
            let attribute = der::element_at(set.value, 0)->0;
            let oid = der::element_at(attribute.value, 0)->0;
            let name = der::element_at(attribute.value, 1)->0;
            &&& set.tag == 0x31
            &&& der::element_at(set.value, 0) is Some
            &&& attribute.tag == 0x30
            &&& der::element_at(attribute.value, 0) is Some
            &&& oid.tag == 6
            &&& oid.value == common_name_oid()
            &&& der::element_at(attribute.value, 1) is Some
            &&& name.tag == 12 || name.tag == 19 || name.tag == 22
            &&& vstd::utf8::valid_utf8(name.value)
        },
        common_name_of(set) is Some ==> common_name_of(set)->0 == der::element_at(
            der::element_at(set.value, 0)->0.value,
            1,
        )->0.value,
{
}

/// The common names of a subject are those of its elements, in order, up to the first
/// element that is not complete.
pub proof fn law_names_are_gathered_in_order(cert: Seq<u8>, subject: Seq<u8>)
    ensures
        der::head(subject) is None ==> names_in(subject).len() == 0,
        der::head(subject) is Some && common_name_of(der::head(subject)->0) is Some ==> names_in(
            subject,
        ) == seq![common_name_of(der::head(subject)->0)->0] + names_in(
            der::head(subject)->0.rest,
        ),
        der::head(subject) is Some && common_name_of(der::head(subject)->0) is None ==> names_in(
            subject,
        ) == names_in(der::head(subject)->0.rest),
        subject_of(cert) is None ==> names_of(cert).len() == 0,
        subject_of(cert) is Some ==> names_of(cert) == names_in(subject_of(cert)->0),
{
    der::law_element_splits_input(subject);
}

/// A certificate has a name exactly when one of its common names differs from it at most
/// in case, so the name's case does not matter.
pub proof fn law_certificate_is_named(cert: Seq<u8>, name: Seq<u8>, i: int)
    ensures
        0 <= i < names_of(cert).len() && text::same_ignoring_case(names_of(cert)[i], name)
            ==> is_named(cert, name),
        names_of(cert).len() == 0 ==> !is_named(cert, name),
        is_named(cert, name) ==> exists|k: int|
            0 <= k < names_of(cert).len() && text::lowered(#[trigger] names_of(cert)[k])
                == text::lowered(name),
        is_named(cert, text::lowered(name)) <==> is_named(cert, name),
{
    if is_named(cert, name) {
        let k = choose|k: int|
            0 <= k < names_of(cert).len() && text::same_ignoring_case(
                #[trigger] names_of(cert)[k],
                name,
            );
        text::law_case_is_ignored(name, names_of(cert)[k]);
        text::law_case_is_ignored(names_of(cert)[k], text::lowered(name));
        assert(text::same_ignoring_case(names_of(cert)[k], text::lowered(name)));
    }
    if is_named(cert, text::lowered(name)) {
        let k = choose|k: int|
            0 <= k < names_of(cert).len() && text::same_ignoring_case(
                #[trigger] names_of(cert)[k],
                text::lowered(name),
            );
        text::law_case_is_ignored(name, names_of(cert)[k]);
        text::law_case_is_ignored(names_of(cert)[k], text::lowered(name));
        assert(text::same_ignoring_case(names_of(cert)[k], name));
    }
}

/// A validity period is made of two times, the first second and the last.
pub proof fn law_validity_is_two_times(validity: Seq<u8>)
    ensures
        ({
            let from = der::element_at(validity, 0);
            let to = der::element_at(validity, 1);
            let first = time::time_value(from->0.tag, from->0.value);
            let last = time::time_value(to->0.tag, to->0.value);
            &&& validity_of(validity) is Some <==> from is Some && to is Some && first is Some
                && last is Some
            &&& validity_of(validity) is Some ==> validity_of(validity)->0 == (first->0, last->0)
        }),
{
}

/// What makes a version 1 certificate, field by field, and what is read of it. The signed
/// part, the algorithm and the signature follow one another. The signed part has no
/// version, and names the same algorithm. The signature leaves no bits of its last byte
/// unused.
pub proof fn law_legacy_certificate_field_by_field(cert: Seq<u8>)
    ensures
        ({
            let body = der::element_at(cert, 0)->0.value;
            let tbs = der::element_at(body, 0)->0;
            let algorithm = der::element_at(body, 1)->0;
            let signature = der::element_at(body, 2)->0;
            let own = der::element_at(tbs.value, 1)->0;
            let validity = der::element_at(tbs.value, 3)->0;
            &&& legacy_fields(cert) is Some <==> {
                &&& der::element_at(cert, 0) is Some && der::element_at(cert, 0)->0.tag == 0x30
                &&& der::element_at(body, 0) is Some && tbs.tag == 0x30
                &&& der::element_at(body, 1) is Some && algorithm.tag == 0x30
                &&& der::element_at(body, 2) is Some && signature.tag == 3
                &&& !(tbs.value.len() > 0 && tbs.value[0] == 0xa0)
                &&& der::element_at(tbs.value, 0) is Some
                &&& der::element_at(tbs.value, 1) is Some && own.tag == 0x30 && own.value
                    == algorithm.value
                &&& der::element_at(tbs.value, 2) is Some && der::element_at(tbs.value, 2)->0.tag
                    == 0x30
                &&& der::element_at(tbs.value, 3) is Some && validity.tag == 0x30
                &&& der::element_at(tbs.value, 4) is Some
                &&& der::element_at(tbs.value, 5) is Some && der::element_at(tbs.value, 5)->0.tag
                    == 0x30
                &&& validity_of(validity.value) is Some
                &&& signature.value.len() > 0 && signature.value[0] == 0
            }
            &&& legacy_fields(cert) is Some ==> legacy_fields(cert)->0 == (LegacyFields {
                tbs: tbs.raw,
                signature_algorithm: algorithm.value,
                not_before: (validity_of(validity.value)->0).0,
                not_after: (validity_of(validity.value)->0).1,
                signature: signature.value.subrange(1, signature.value.len() as int),
            })
        }),
{
}

/// A signature algorithm is RSA over SHA-256 when its first element is that identifier,
/// whatever its parameters are.
pub proof fn law_sha256_rsa(algorithm: Seq<u8>)
    ensures
        is_sha256_rsa(algorithm) <==> der::element_at(algorithm, 0) is Some && der::element_at(
            algorithm,
            0,
        )->0.tag == 6 && der::element_at(algorithm, 0)->0.value == sha256_rsa_oid(),
{
}

/// A certificate that was read shows what stands in it. Texts show their bytes, in order.
pub proof fn law_certificate_shows_its_fields(cert: LegacyCertificate<'_>, names: Seq<&str>, i: int)
    ensures
        cert@.tbs == cert.tbs@,
        cert@.signature_algorithm == cert.signature_algorithm@,
        cert@.not_before == cert.not_before,
        cert@.not_after == cert.not_after,
        cert@.signature == cert.signature@,
        texts(names).len() == names.len(),
        0 <= i < names.len() ==> texts(names)[i] == names[i].spec_bytes(),
{
}

} // verus!
