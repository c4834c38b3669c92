//! DER, times, certificates and identities.

use quiche_tls::tls::certificate::certificate_subject;
use quiche_tls::tls::certificate::certificate_subject_public_key_info;
use quiche_tls::tls::certificate::common_name_matches_server_name;
use quiche_tls::tls::certificate::common_names;
use quiche_tls::tls::certificate::legacy_sha256_rsa_signature_algorithm;
use quiche_tls::tls::certificate::legacy_v1_certificate;
use quiche_tls::tls::certificate::valid_at;
use quiche_tls::tls::der::der_sequence;
use quiche_tls::tls::der::encode_der_len;
use quiche_tls::tls::der::DerReader;
use quiche_tls::tls::identity::peer_cert;
use quiche_tls::tls::identity::peer_cert_chain;
use quiche_tls::tls::identity::Identity;
use quiche_tls::tls::text::contains;
use quiche_tls::tls::text::eq_ignore_case;
use quiche_tls::tls::text::to_lowered;
use quiche_tls::tls::time::days_from_civil;
use quiche_tls::tls::time::days_in_month;
use quiche_tls::tls::time::decimal;
use quiche_tls::tls::time::der_time;
use quiche_tls::tls::time::leap_year;
use quiche_tls::tls::time::unix_time;

fn tlv(tag: u8, parts: &[&[u8]]) -> Vec<u8> {
    let value = parts.concat();
    let mut out = vec![tag];
    encode_der_len(value.len(), &mut out);
    out.extend_from_slice(&value);
    out
}

fn rdn(oid: &[u8], tag: u8, value: &[u8]) -> Vec<u8> {
    tlv(0x31, &[&tlv(0x30, &[&tlv(0x06, &[oid]), &tlv(tag, &[value])])])
}

const COMMON_NAME: &[u8] = &[0x55, 0x04, 0x03];
const ORGANIZATION: &[u8] = &[0x55, 0x04, 0x0a];

struct Fields<'a> {
    version: &'a [u8],
    inner_algorithm: &'a [u8],
    outer_algorithm: &'a [u8],
    not_before: &'a [u8],
    not_after: &'a [u8],
    subject: &'a [u8],
    signature: &'a [u8],
}

fn certificate(fields: &Fields<'_>) -> Vec<u8> {
    let tbs = tlv(
        0x30,
        &[
            fields.version,
            &tlv(0x02, &[&[1]]),
            &tlv(0x30, &[fields.inner_algorithm]),
            &tlv(0x30, &[]),
            &tlv(0x30, &[&tlv(0x17, &[fields.not_before]), &tlv(0x18, &[fields.not_after])]),
            &tlv(0x30, &[fields.subject]),
            &tlv(0x30, &[b"key"]),
        ],
    );
    tlv(
        0x30,
        &[&tbs, &tlv(0x30, &[fields.outer_algorithm]), &tlv(0x03, &[fields.signature])],
    )
}

fn fields<'a>(subject: &'a [u8]) -> Fields<'a> {
    Fields {
        version: &[],
        inner_algorithm: b"alg",
        outer_algorithm: b"alg",
        not_before: b"700101000001Z",
        not_after: b"21060207062815Z",
        subject,
        signature: &[0, 9, 9],
    }
}

#[test]
fn reader_walks_over_elements() {
    let input = [0x02, 0x01, 0x05, 0x04, 0x81, 0x02, 0xaa, 0xbb, 0x30, 0x05, 0x00];
    let mut reader = DerReader::new(&input);

    assert_eq!(reader.peek_tag(), Some(0x02));
    assert_eq!(reader.next_raw(), Some(Some((0x02, &input[2..3], &input[..3]))));
    assert_eq!(reader.next(), Some(Some((0x04, &input[6..8]))));
    assert_eq!(reader.next(), Some(None));
    assert_eq!(reader.next(), None);
    assert_eq!(reader.peek_tag(), None);
}

#[test]
fn reader_stops_at_what_it_cannot_start() {
    let mut reader = DerReader::new(&[0x30]);
    assert_eq!(reader.next_raw(), None);
    assert_eq!(reader.peek_tag(), Some(0x30));

    let mut reader = DerReader::new(&[0x30, 0x80, 0x00]);
    assert_eq!(reader.next_raw(), Some(None));

    let mut reader = DerReader::new(&[0x30, 0x82, 0x01]);
    assert_eq!(reader.next_raw(), Some(None));

    let huge = [0x30, 0x89, 1, 0, 0, 0, 0, 0, 0, 0, 0];
    let mut reader = DerReader::new(&huge);
    assert_eq!(reader.next_raw(), None);
    assert_eq!(reader.input, &huge);

    let largest = [0x30, 0x88, 0xff, 0xff, 0xff, 0xff, 0xff, 0xff, 0xff, 0xff];
    assert_eq!(DerReader::new(&largest).next_raw(), None);
}

#[test]
fn written_sequences_are_read_back() {
    for len in [0, 1, 0x7f, 0x80, 0xff, 0x100, 0x1_0000] {
        let value = vec![0x5a; len];
        let der = der_sequence(&value);
        let mut reader = DerReader::new(&der);
        assert_eq!(reader.next_raw(), Some(Some((0x30, &value[..], &der[..]))));
        assert_eq!(reader.next_raw(), None);
    }
}

#[test]
fn lengths_have_short_and_long_forms() {
    for (len, expected) in [
        (0, &[0x00][..]),
        (0x7f, &[0x7f]),
        (0x80, &[0x81, 0x80]),
        (0x100, &[0x82, 0x01, 0x00]),
        (0x12_3456, &[0x83, 0x12, 0x34, 0x56]),
    ] {
        let mut out = vec![0xee];
        encode_der_len(len, &mut out);
        assert_eq!(out[0], 0xee);
        assert_eq!(out[1..], *expected);
    }
}

#[test]
fn calendar_counts_days() {
    assert_eq!(days_from_civil(1970, 1, 1), Some(0));
    assert_eq!(days_from_civil(1969, 12, 31), Some(-1));
    assert_eq!(days_from_civil(2000, 2, 29), Some(11_016));
    assert_eq!(days_from_civil(2000, 3, 1), Some(11_017));
    assert_eq!(days_from_civil(-400, 3, 1), Some(-865_565));
    assert_eq!(days_from_civil(i64::MAX, 1, 1), None);
    assert_eq!(days_in_month(1900, 2), Some(28));
    assert_eq!(days_in_month(2000, 2), Some(29));
    assert_eq!(days_in_month(2023, 4), Some(30));
    assert_eq!(days_in_month(2023, 12), Some(31));
    assert_eq!(days_in_month(2023, 13), None);
    assert!(leap_year(2024) && leap_year(2000) && !leap_year(1900) && !leap_year(2023));
}

#[test]
fn moments_are_checked() {
    assert_eq!(unix_time(1970, 1, 1, 0, 0, 0), Some(0));
    assert_eq!(unix_time(2027, 1, 15, 8, 0, 0), Some(1_800_000_000));
    assert_eq!(unix_time(1969, 12, 31, 23, 59, 59), None);
    assert_eq!(unix_time(2023, 2, 29, 0, 0, 0), None);
    assert_eq!(unix_time(2023, 0, 1, 0, 0, 0), None);
    assert_eq!(unix_time(2023, 1, 0, 0, 0, 0), None);
    assert_eq!(unix_time(2023, 1, 1, 24, 0, 0), None);
    assert_eq!(unix_time(2023, 1, 1, 0, 60, 0), None);
    assert_eq!(unix_time(2023, 1, 1, 0, 0, 60), None);
    assert_eq!(unix_time(i64::MAX, 1, 1, 0, 0, 0), None);
}

#[test]
fn times_are_read() {
    assert_eq!(der_time(0x17, b"270115080000Z"), Some(1_800_000_000));
    assert_eq!(der_time(0x18, b"20270115080000Z"), Some(1_800_000_000));
    assert_eq!(der_time(0x17, b"700101000000Z"), Some(0));
    assert_eq!(der_time(0x17, b"500101000000Z"), None);
    assert_eq!(der_time(0x17, b"491231235959Z"), Some(2_524_607_999));
    assert_eq!(der_time(0x18, b"19691231235959Z"), None);
    assert_eq!(der_time(0x17, b"2701150800000"), None);
    assert_eq!(der_time(0x17, b"27011508000Z"), None);
    assert_eq!(der_time(0x17, b"2x0115080000Z"), None);
    assert_eq!(der_time(0x17, b"2701150800 0Z"), None);
    assert_eq!(der_time(0x18, b"2027011508000Z"), None);
    assert_eq!(der_time(0x16, b"270115080000Z"), None);
    assert_eq!(der_time(0x17, b"991231235959Z"), der_time(0x18, b"19991231235959Z"));
    assert_eq!(der_time(0x17, b"491231235959Z"), der_time(0x18, b"20491231235959Z"));
    assert_eq!(decimal(b"0042"), Some(42));
    assert_eq!(decimal(b""), Some(0));
    assert_eq!(decimal(b"4294967295"), Some(u32::MAX));
    assert_eq!(decimal(b"4 2"), None);
}

#[test]
fn subject_and_key_are_found() {
    let subject = rdn(COMMON_NAME, 0x0c, b"quic.tech");
    let old = certificate(&fields(&subject));
    assert_eq!(certificate_subject(&old), Some(&subject[..]));
    assert_eq!(
        certificate_subject_public_key_info(&old),
        Some(&tlv(0x30, &[b"key"])[..])
    );

    let version = tlv(0xa0, &[&tlv(0x02, &[&[2]])]);
    let new = certificate(&Fields { version: &version, ..fields(&subject) });
    assert_eq!(certificate_subject(&new), Some(&subject[..]));
    assert_eq!(
        certificate_subject_public_key_info(&new),
        Some(&tlv(0x30, &[b"key"])[..])
    );

    assert_eq!(certificate_subject(&[]), None);
    assert_eq!(certificate_subject(&old[..old.len() - 1]), None);
    assert_eq!(certificate_subject_public_key_info(b"0\x00"), None);
}

#[test]
fn common_names_are_collected() {
    let subject = [
        rdn(ORGANIZATION, 0x0c, b"quic.tech"),
        rdn(COMMON_NAME, 0x0c, b"one"),
        rdn(COMMON_NAME, 0x13, b"two"),
        rdn(COMMON_NAME, 0x16, b"three"),
        rdn(COMMON_NAME, 0x1e, b"four"),
        rdn(COMMON_NAME, 0x0c, &[0xff]),
        tlv(0x30, &[b"not a set"]),
        rdn(COMMON_NAME, 0x0c, b"five"),
    ]
    .concat();
    let cert = certificate(&fields(&subject));

    assert_eq!(common_names(&cert), vec!["one", "two", "three", "five"]);
    assert!(common_name_matches_server_name(&cert, "THREE"));
    assert!(!common_name_matches_server_name(&cert, "quic.tech"));
    assert!(!common_name_matches_server_name(&cert, "thre"));
    assert!(common_names(b"").is_empty());
}

#[test]
fn version_1_certificates_are_read() {
    let subject = rdn(COMMON_NAME, 0x0c, b"quic.tech");
    let cert = certificate(&fields(&subject));
    let legacy = legacy_v1_certificate(&cert).unwrap();

    assert_eq!(legacy.signature_algorithm, b"alg");
    assert_eq!(legacy.signature, &[9, 9]);
    assert_eq!(legacy.tbs[0], 0x30);
    assert_eq!(legacy.not_before, 1);
    assert_eq!(legacy.not_after, 4_294_967_295);
    assert!(!valid_at(&legacy, 0));
    assert!(valid_at(&legacy, 1));
    assert!(valid_at(&legacy, 4_294_967_295));
    assert!(!valid_at(&legacy, 4_294_967_296));
}

#[test]
fn other_certificates_are_not_of_version_1() {
    let subject = rdn(COMMON_NAME, 0x0c, b"quic.tech");
    let version = tlv(0xa0, &[&tlv(0x02, &[&[0]])]);
    let base = fields(&subject);
    for wrong in [
        Fields { version: &version, ..fields(&subject) },
        Fields { outer_algorithm: b"other", ..fields(&subject) },
        Fields { not_before: b"700101000060Z", ..fields(&subject) },
        Fields { not_after: b"21060207062815", ..fields(&subject) },
        Fields { signature: &[], ..fields(&subject) },
        Fields { signature: &[1, 9], ..fields(&subject) },
    ] {
        assert!(legacy_v1_certificate(&certificate(&wrong)).is_none());
    }
    assert!(legacy_v1_certificate(&certificate(&base)).is_some());
    assert!(legacy_v1_certificate(&[]).is_none());
}

#[test]
fn rsa_over_sha256_is_known() {
    let oid = [0x2a, 0x86, 0x48, 0x86, 0xf7, 0x0d, 0x01, 0x01, 0x0b];
    assert!(legacy_sha256_rsa_signature_algorithm(&tlv(0x06, &[&oid])));
    assert!(legacy_sha256_rsa_signature_algorithm(
        &[tlv(0x06, &[&oid]), vec![5, 0]].concat()
    ));
    assert!(!legacy_sha256_rsa_signature_algorithm(&tlv(0x06, &[&oid[..8]])));
    assert!(!legacy_sha256_rsa_signature_algorithm(&tlv(0x04, &[&oid])));
    assert!(!legacy_sha256_rsa_signature_algorithm(&[]));
}

#[test]
fn chains_start_with_the_leaf() {
    let chain = Identity::X509 { end_entity: vec![1], intermediates: vec![vec![2], vec![3]] };
    assert_eq!(peer_cert_chain(&chain), Some(vec![&[1][..], &[2], &[3]]));
    assert_eq!(peer_cert(&chain), Some(&[1][..]));

    let gap = Identity::X509 { end_entity: vec![1], intermediates: vec![vec![2], vec![]] };
    assert_eq!(peer_cert_chain(&gap), None);
    assert_eq!(peer_cert(&gap), Some(&[1][..]));

    let empty = Identity::X509 { end_entity: vec![], intermediates: vec![vec![2]] };
    assert_eq!(peer_cert_chain(&empty), None);
    assert_eq!(peer_cert(&empty), None);

    let key = Identity::RawPublicKey(vec![7]);
    assert_eq!(peer_cert_chain(&key), Some(vec![&[7][..]]));
    assert_eq!(peer_cert(&key), Some(&[7][..]));
    assert_eq!(peer_cert_chain(&Identity::RawPublicKey(vec![])), None);
    assert_eq!(peer_cert(&Identity::RawPublicKey(vec![])), None);
    assert_eq!(peer_cert_chain(&Identity::Unknown), None);
    assert_eq!(peer_cert(&Identity::Unknown), None);
}

#[test]
fn text_is_compared_and_searched() {
    assert!(eq_ignore_case(b"Quic.Tech", b"qUIC.tECH"));
    assert!(!eq_ignore_case(b"[", b"{"));
    assert!(!eq_ignore_case(b"a", b"ab"));
    assert_eq!(to_lowered(b"AZ@[az\xc0"), b"az@[az\xc0");
    assert!(contains(b"Other(UnsupportedCertVersion)", b"UnsupportedCertVersion"));
    assert!(contains(b"abc", b""));
    assert!(contains(b"abc", b"c"));
    assert!(!contains(b"abc", b"ca"));
    assert!(!contains(b"ab", b"abc"));
}
