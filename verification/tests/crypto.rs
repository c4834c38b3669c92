//! Packet protection, key derivation and comparison.

use quiche_tls::bytes::list_len;
use quiche_tls::bytes::u64_to_octets;
use quiche_tls::crypto::aws_lc;
use quiche_tls::crypto::make_label_info;
use quiche_tls::crypto::make_nonce;
use quiche_tls::crypto::rustls_provider;
use quiche_tls::crypto::rustls_provider::AeadKeyBytes;
use quiche_tls::crypto::rustls_provider::QuicVersion;
use quiche_tls::crypto::Algorithm;
use quiche_tls::error::Error;
use quiche_tls::packet::CryptoContext;
use quiche_tls::packet::SendBuf;
use quiche_tls::quic_crypto;
use std::sync::Arc;

const ALL: [Algorithm; 3] =
    [Algorithm::AES128_GCM, Algorithm::AES256_GCM, Algorithm::ChaCha20_Poly1305];

fn unhex(text: &str) -> Vec<u8> {
    let digits: Vec<u8> =
        text.bytes().filter(|b| !b.is_ascii_whitespace()).collect();
    digits
        .chunks(2)
        .map(|pair| u8::from_str_radix(std::str::from_utf8(pair).unwrap(), 16).unwrap())
        .collect()
}

/// The client's initial secret of RFC 9001, appendix A.1.
fn client_initial_secret() -> Vec<u8> {
    unhex("c00cf151ca5be075ed0ebfb5c80323c42d6b7db67881289af4008f1f6c357aea")
}

#[test]
fn initial_keys_are_derived() {
    let secret = client_initial_secret();

    assert_eq!(
        aws_lc::derive_pkt_key(Algorithm::AES128_GCM, &secret),
        Ok(unhex("1f369613dd76d5467730efcbe3b1a22d"))
    );
    assert_eq!(
        aws_lc::derive_pkt_iv(Algorithm::AES128_GCM, &secret),
        Ok(unhex("fa044b2f42a3fd3b46fb255c"))
    );
}

#[test]
fn initial_secret_is_extracted() {
    let salt = unhex("38762cf7f55934b34d179ae6a4c80cadccbb7f0a");
    let mut out = [0xee; 40];

    aws_lc::hkdf_extract(
        Algorithm::AES128_GCM,
        &mut out,
        &unhex("8394c8f03e515708"),
        &salt,
    )
    .unwrap();

    assert_eq!(
        out[..32],
        unhex("7db5df06e7a69e432496adedb00851923595221596ae2ae9fb8115c1e9ed0a44")[..]
    );
    assert_eq!(out[32..], [0xee; 8]);

    let mut short = [0; 31];
    assert_eq!(
        aws_lc::hkdf_extract(Algorithm::AES128_GCM, &mut short, b"secret", &salt),
        Err(Error::CryptoFail)
    );
    assert_eq!(short, [0; 31]);
    let mut wide = [0; 48];
    assert_eq!(
        aws_lc::hkdf_extract(Algorithm::AES256_GCM, &mut wide, b"secret", &salt),
        Ok(())
    );
    assert_eq!(
        aws_lc::hkdf_extract(Algorithm::AES256_GCM, &mut wide[..47], b"secret", &salt),
        Err(Error::CryptoFail)
    );
}

#[test]
fn header_masks_match_known_ones() {
    let key = unhex("9f50449e04a0e810283a1e9933adedd2");
    let sample = unhex("d1b1c98dd7689fb8ec11d242b123dc9b");
    let mask = unhex("437b9aec36");

    let hp = aws_lc::HeaderProtectionKey::new(Algorithm::AES128_GCM, key.clone()).unwrap();
    assert_eq!(hp.new_mask(&sample).unwrap()[..], mask[..]);
    assert_eq!(hp.clone().new_mask(&sample).unwrap()[..], mask[..]);
    assert_eq!(hp.new_mask(&sample[..15]), Err(Error::CryptoFail));
    assert!(matches!(
        aws_lc::HeaderProtectionKey::new(Algorithm::AES256_GCM, key.clone()),
        Err(Error::CryptoFail)
    ));

    let hp = rustls_provider::HeaderProtectionKey::new(Algorithm::AES128_GCM, key).unwrap();
    let mut covered = mask.clone();
    covered[0] &= 0x1f;
    assert_eq!(hp.new_mask(&sample).unwrap()[..], covered[..]);
    assert_eq!(hp.clone().new_mask(&sample).unwrap()[..], covered[..]);
    assert_eq!(hp.new_mask(&sample[..15]), Err(Error::CryptoFail));
    assert!(matches!(
        rustls_provider::HeaderProtectionKey::new(Algorithm::AES128_GCM, vec![0; 15]),
        Err(Error::CryptoFail)
    ));
}

#[test]
fn chacha_packet_is_sealed() {
    let secret =
        unhex("9ac312a7f877468ebe69422748ad00a15443f18203a07d6060f688f30f21632b");
    let counter = 654_360_564;
    let header = unhex("4200bff4");
    let mut buf = vec![0x01; 17];

    let mut key =
        aws_lc::PacketKey::from_secret(Algorithm::ChaCha20_Poly1305, &secret, 0).unwrap();
    assert_eq!(key.seal_with_u64_counter(counter, &header, &mut buf, 1, None), Ok(17));
    assert_eq!(buf, unhex("655e5cd55c41f69080575d7999c25a5bfb"));
    assert_eq!(key.open_with_u64_counter(counter, &header, &mut buf), Ok(1));
    assert_eq!(buf[0], 0x01);

    let key =
        rustls_provider::PacketKey::from_secret(Algorithm::ChaCha20_Poly1305, &secret, 0).unwrap();
    let mut buf = vec![0x01; 17];
    assert_eq!(key.seal_with_u64_counter(counter, &header, &mut buf, 1, None), Ok(17));
    assert_eq!(buf, unhex("655e5cd55c41f69080575d7999c25a5bfb"));
    assert_eq!(key.open_with_u64_counter(counter, &header, &mut buf), Ok(1));
    assert_eq!(buf[0], 0x01);
}

#[test]
fn sealed_packets_open_to_what_they_held() {
    for alg in ALL {
        let bytes: Vec<u8> = (0..alg.key_len() as u8).collect();
        let iv = vec![9; alg.nonce_len()];
        let mut key = aws_lc::PacketKey::new(alg, bytes.clone(), iv.clone(), 0).unwrap();
        let other = rustls_provider::PacketKey::new(alg, bytes, iv, 0).unwrap();

        for extra in [None, Some(&b"and more"[..])] {
            let extra_len = extra.map_or(0, <[u8]>::len);
            let total = 5 + extra_len + alg.tag_len();
            let mut expected = b"hello".to_vec();
            expected.extend_from_slice(extra.unwrap_or(&[]));

            let mut buf = vec![0xaa; total + 3];
            buf[..5].copy_from_slice(b"hello");
            assert_eq!(key.seal_with_u64_counter(7, b"ad", &mut buf, 5, extra), Ok(total));
            assert_ne!(buf[..5], *b"hello");
            assert_eq!(buf[total..], [0xaa; 3]);

            let mut same = vec![0xaa; total + 3];
            same[..5].copy_from_slice(b"hello");
            assert_eq!(other.seal_with_u64_counter(7, b"ad", &mut same, 5, extra), Ok(total));
            assert_eq!(buf, same);

            let mut wrong = buf.clone();
            assert_eq!(
                key.open_with_u64_counter(8, b"ad", &mut wrong[..total]),
                Err(Error::CryptoFail)
            );
            assert_eq!(
                key.open_with_u64_counter(7, b"da", &mut wrong[..total]),
                Err(Error::CryptoFail)
            );
            assert_eq!(
                other.open_with_u64_counter(8, b"ad", &mut wrong[..total]),
                Err(Error::CryptoFail)
            );

            assert_eq!(
                key.open_with_u64_counter(7, b"ad", &mut buf[..total]),
                Ok(expected.len())
            );
            assert_eq!(buf[..expected.len()], expected[..]);
            assert_eq!(
                other.open_with_u64_counter(7, b"ad", &mut same[..total]),
                Ok(expected.len())
            );
            assert_eq!(same[..expected.len()], expected[..]);
        }
    }
}

#[test]
fn sealing_needs_room_for_the_tag() {
    let mut key =
        aws_lc::PacketKey::new(Algorithm::AES128_GCM, vec![1; 16], vec![2; 12], 0).unwrap();
    let other =
        rustls_provider::PacketKey::new(Algorithm::AES128_GCM, vec![1; 16], vec![2; 12], 0)
            .unwrap();
    let mut buf = vec![3; 20];

    assert_eq!(key.seal_with_u64_counter(0, b"", &mut buf, 5, None), Err(Error::CryptoFail));
    assert_eq!(
        key.seal_with_u64_counter(0, b"", &mut buf, 4, Some(b"x")),
        Err(Error::CryptoFail)
    );
    assert_eq!(other.seal_with_u64_counter(0, b"", &mut buf, 5, None), Err(Error::CryptoFail));
    assert_eq!(
        other.seal_with_u64_counter(0, b"", &mut buf, 4, Some(b"x")),
        Err(Error::CryptoFail)
    );
    assert_eq!(buf, vec![3; 20]);
    assert_eq!(key.seal_with_u64_counter(0, b"", &mut buf, 4, None), Ok(20));
}

#[test]
fn short_packets_do_not_open() {
    let key =
        aws_lc::PacketKey::new(Algorithm::AES256_GCM, vec![1; 32], vec![2; 12], 0).unwrap();
    let mut buf = [0; 15];

    assert_eq!(key.open_with_u64_counter(0, b"", &mut buf), Err(Error::CryptoFail));
}

#[test]
fn keys_of_wrong_size_are_refused() {
    for alg in ALL {
        let iv = vec![0; 12];
        assert!(matches!(
            aws_lc::PacketKey::new(alg, vec![0; alg.key_len() - 1], iv.clone(), 0),
            Err(Error::CryptoFail)
        ));
        assert!(matches!(
            rustls_provider::PacketKey::new(alg, vec![0; alg.key_len() + 1], iv, 0),
            Err(Error::CryptoFail)
        ));
        assert!(matches!(
            rustls_provider::PacketKey::new(alg, vec![0; alg.key_len()], vec![0; 17], 0),
            Err(Error::CryptoFail)
        ));
        assert!(matches!(
            rustls_provider::PacketKey::from_secret(alg, &[0; 65], 0),
            Err(Error::CryptoFail)
        ));
    }
}

#[test]
fn nonces_combine_vector_and_number() {
    let iv = unhex("fa044b2f42a3fd3b46fb255c");

    assert_eq!(make_nonce(&iv, 0)[..], iv[..]);
    assert_eq!(make_nonce(&iv, 2)[..], unhex("fa044b2f42a3fd3b46fb255e")[..]);
    assert_eq!(
        make_nonce(&iv, u64::MAX)[..],
        unhex("fa044b2fbd5c02c4b904daa3")[..]
    );
    assert_ne!(make_nonce(&iv, 1), make_nonce(&iv, 1 << 56));
}

#[test]
fn labels_carry_length_and_prefix() {
    assert_eq!(make_label_info(16, b"quic key"), b"\x00\x10\x0etls13 quic key\x00");
    assert_eq!(make_label_info(12, b"quic iv"), b"\x00\x0c\x0dtls13 quic iv\x00");
    assert_eq!(u64_to_octets(0x0102_0304_0506_0708), [1, 2, 3, 4, 5, 6, 7, 8]);
}

#[test]
fn expansion_agrees_and_has_a_limit() {
    for alg in ALL {
        let mut a = [0; 42];
        let mut b = [0; 42];
        aws_lc::hkdf_expand(alg, &mut a, &[7; 32], b"info").unwrap();
        rustls_provider::hkdf_expand(alg, &mut b, &[7; 32], b"info").unwrap();
        assert_eq!(a, b);
        assert_ne!(a, [0; 42]);
        let mut c = [0; 42];
        aws_lc::hkdf_expand(alg, &mut c, &[7; 32], b"other").unwrap();
        assert_ne!(a, c);

        let hash = if alg == Algorithm::AES256_GCM { 48 } else { 32 };
        let mut most = vec![0; 255 * hash];
        assert_eq!(aws_lc::hkdf_expand(alg, &mut most, &[7; 32], b""), Ok(()));
        let mut more = vec![0; 255 * hash + 1];
        assert_eq!(
            aws_lc::hkdf_expand(alg, &mut more, &[7; 32], b""),
            Err(Error::CryptoFail)
        );
        assert_eq!(
            rustls_provider::hkdf_expand(alg, &mut more, &[7; 32], b""),
            Err(Error::CryptoFail)
        );
        assert_eq!(
            rustls_provider::hkdf_expand(alg, &mut b, &[7; 65], b"info"),
            Err(Error::CryptoFail)
        );
    }
}

#[test]
fn expansion_matches_a_known_one() {
    let prk = unhex("077709362c2e32df0ddc3f0dc47bba6390b6c73bb50f9c3122ec844ad7c2b3e5");
    let info = unhex("f0f1f2f3f4f5f6f7f8f9");
    let mut okm = [0; 42];

    aws_lc::hkdf_expand(Algorithm::AES128_GCM, &mut okm, &prk, &info).unwrap();

    assert_eq!(
        okm[..],
        unhex(
            "3cb25f25faacd57a90434f64d0362f2a2d2d0a90cf1a5a4c5db02d56ecc4c5bf34007208d5b887185865"
        )[..]
    );
}

#[test]
fn hmac_matches_a_known_one() {
    let expected = unhex("5bdcc146bf60754e6a042426089575c75a003f089d2739839dec58b964ec3843");
    let data = b"what do ya want for nothing?";

    assert_eq!(quic_crypto::hmac_sha256(b"Jefe", data)[..], expected[..]);
    assert_eq!(rustls_provider::hmac_sha256(b"Jefe", data).unwrap()[..], expected[..]);
    assert_eq!(rustls_provider::hmac_sha256(&[0; 65], data), Err(Error::CryptoFail));
    assert_eq!(rustls_provider::tag_array(&[4; 32]), Ok([4; 32]));
    assert_eq!(rustls_provider::tag_array(&[4; 16]), Err(Error::CryptoFail));
    assert_eq!(rustls_provider::tag_array(&[4; 48]), Err(Error::CryptoFail));
}

#[test]
fn comparison_sees_every_difference() {
    for (a, b) in [
        (&b""[..], &b""[..]),
        (b"abc", b"abc"),
        (b"abc", b"abd"),
        (b"abc", b"bbc"),
        (b"abc", b"ab"),
        (b"", b"a"),
    ] {
        let expected = if a == b { Ok(()) } else { Err(Error::CryptoFail) };
        assert_eq!(aws_lc::backend_verify_slices_are_equal(a, b), expected);
        assert_eq!(rustls_provider::backend_verify_slices_are_equal(a, b), expected);
        assert_eq!(quic_crypto::verify_slices_are_equal(a, b), a == b);
    }
}

#[test]
fn random_bytes_differ() {
    let mut a = [0; 32];
    let mut b = [0; 32];
    quic_crypto::rand_bytes(&mut a).unwrap();
    quic_crypto::rand_bytes(&mut b).unwrap();
    assert_ne!(a, b);
    rustls_provider::fill_random(&mut a).unwrap();
    assert_ne!(a, b);
}

#[test]
fn keys_for_the_stack_have_two_sizes() {
    assert!(matches!(
        rustls_provider::aead_key_from_slice(&[5; 16]),
        Ok(AeadKeyBytes::Short(key)) if key == [5; 16]
    ));
    assert!(matches!(
        rustls_provider::aead_key_from_slice(&[5; 32]),
        Ok(AeadKeyBytes::Long(key)) if key == [5; 32]
    ));
    assert!(matches!(
        rustls_provider::aead_key_from_slice(&[5; 24]),
        Err(Error::CryptoFail)
    ));
}

#[test]
fn suites_are_found_by_number() {
    for (alg, number) in ALL.into_iter().zip([0x1301, 0x1302, 0x1303]) {
        let suite = rustls_provider::tls13_suite_for_algorithm(alg).unwrap();
        assert_eq!(suite.number, number);
        assert!(suite.quic);
    }
    assert!(matches!(
        rustls_provider::tls13_suite_for_cipher_suite(0x1304),
        Err(Error::CryptoFail)
    ));
    let provider = rustls_provider::default_provider().unwrap();
    let other = Arc::new(rustls_aws_lc_rs::DEFAULT_TLS13_PROVIDER);
    let chosen = rustls_provider::choose_provider(Some(Arc::clone(&provider)), Arc::clone(&other));
    assert!(Arc::ptr_eq(&chosen, &provider));
    let chosen = rustls_provider::choose_provider(None, Arc::clone(&other));
    assert!(Arc::ptr_eq(&chosen, &other));
    assert_eq!(rustls_provider::rustls_quic_version(7), QuicVersion::V1);

    let first = rustls_provider::tls13_suite_for_cipher_suite(0x1301).unwrap();
    let second = rustls_provider::tls13_suite_for_cipher_suite(0x1302).unwrap();
    let mut list = vec![second, first];
    assert_eq!(rustls_provider::find_suite(&list, 0x1301), Some(1));
    list[1].quic = false;
    assert_eq!(rustls_provider::find_suite(&list, 0x1301), None);
}

#[test]
fn initial_keys_of_both_sides_fit() {
    let cid = unhex("8394c8f03e515708");
    let client = rustls_provider::initial_keys(&cid, 1, false).unwrap();
    let server = rustls_provider::initial_keys(&cid, 1, true).unwrap();

    let mut payload = b"hello".to_vec();
    let tag = client.local.packet.encrypt_in_place(3, b"header", &mut payload, None).unwrap();
    payload.extend_from_slice(tag.as_ref());
    let plain = server.remote.packet.decrypt_in_place(3, b"header", &mut payload, None).unwrap();
    assert_eq!(plain, b"hello");

    let mut key =
        aws_lc::PacketKey::from_secret(Algorithm::AES128_GCM, &client_initial_secret(), 0).unwrap();
    let mut buf = vec![0; 21];
    buf[..5].copy_from_slice(b"hello");
    assert_eq!(key.seal_with_u64_counter(3, b"header", &mut buf, 5, None), Ok(21));
    assert_eq!(
        server.remote.packet.decrypt_in_place(3, b"header", &mut buf, None).unwrap(),
        b"hello"
    );
}

#[test]
fn masks_come_from_masked_headers() {
    let mask = [0xff, 1, 2, 3, 4];
    let first = 0x03 ^ (mask[0] & 0x1f);

    assert_eq!(rustls_provider::make_mask(first, [1, 2, 3, 4]), [0x1f, 1, 2, 3, 4]);
    assert_eq!(rustls_provider::make_mask(0x03, [0; 4]), [0; 5]);

    let mut buf = [9; 6];
    assert_eq!(rustls_provider::place_sealed(&mut buf, &[1, 2], &[3]), 3);
    assert_eq!(buf, [1, 2, 3, 9, 9, 9]);
}

#[test]
fn streams_send_what_was_written() {
    let mut send = SendBuf::new();
    assert!(!send.has_pending());
    assert_eq!(send.write(b"hello ", false), Ok(6));
    assert_eq!(send.write(b"world", true), Ok(5));
    assert_eq!(send.write(b"!", false), Err(Error::FinalSize));
    assert_eq!(send.write(b"", false), Ok(0));

    let mut out = [0; 8];
    assert_eq!(send.emit(&mut out), Ok((8, false)));
    assert_eq!(&out, b"hello wo");
    assert_eq!(send.emit(&mut out), Ok((3, true)));
    assert_eq!(&out, b"rldlo wo");

    let ctx = CryptoContext::new();
    assert!(!ctx.has_keys());
    assert!(!ctx.data_available());
}

#[test]
fn a_suite_protects_packets_of_its_cipher() {
    for alg in ALL {
        let suite = rustls_provider::tls13_suite_for_algorithm(alg).unwrap();
        let bytes = vec![7; alg.key_len()];
        let iv = vec![9; 12];

        let key = rustls_provider::PacketKey::with_suite(&suite, alg, &bytes, &iv).unwrap();
        let other = rustls_provider::PacketKey::new(alg, bytes.clone(), iv.clone(), 0).unwrap();
        let mut a = vec![1; 21];
        let mut b = vec![1; 21];
        assert_eq!(key.seal_with_u64_counter(2, b"header", &mut a, 5, None), Ok(21));
        assert_eq!(other.seal_with_u64_counter(2, b"header", &mut b, 5, None), Ok(21));
        assert_eq!(a, b);
        assert_ne!(a, vec![1; 21]);
        assert!(matches!(
            rustls_provider::PacketKey::with_suite(&suite, alg, &bytes[1..], &iv),
            Err(Error::CryptoFail)
        ));
        assert!(rustls_provider::PacketKey::with_suite(&suite, alg, &bytes, &[0; 16]).is_ok());
        assert!(matches!(
            rustls_provider::PacketKey::with_suite(&suite, alg, &bytes, &[0; 17]),
            Err(Error::CryptoFail)
        ));

        let derived =
            rustls_provider::PacketKey::from_secret_with_suite(&suite, alg, &[3; 32]).unwrap();
        let mut open = aws_lc::PacketKey::from_secret(alg, &[3; 32], 0).unwrap();
        let mut sealed = vec![4; 21];
        let mut expected = sealed.clone();
        assert_eq!(derived.seal_with_u64_counter(1, b"", &mut sealed, 5, None), Ok(21));
        assert_eq!(open.seal_with_u64_counter(1, b"", &mut expected, 5, None), Ok(21));
        assert_eq!(sealed, expected);
        assert!(matches!(
            rustls_provider::PacketKey::from_secret_with_suite(&suite, alg, &[3; 65]),
            Err(Error::CryptoFail)
        ));

        let mask = rustls_provider::HeaderProtectionKey::with_suite(&suite, alg, &bytes)
            .unwrap()
            .new_mask(&[5; 16])
            .unwrap();
        let same = rustls_provider::HeaderProtectionKey::new(alg, bytes.clone()).unwrap();
        assert_eq!(same.new_mask(&[5; 16]), Ok(mask));
        assert!(matches!(
            rustls_provider::HeaderProtectionKey::with_suite(&suite, alg, &bytes[1..]),
            Err(Error::CryptoFail)
        ));
    }
}

#[test]
fn a_suite_expands_and_authenticates() {
    let suite = rustls_provider::tls13_suite_for_algorithm(Algorithm::AES128_GCM).unwrap();
    let mut a = [0; 42];
    let mut b = [0; 42];
    let alg = Algorithm::AES128_GCM;
    rustls_provider::hkdf_expand_with_suite(&suite, alg, &mut a, &[7; 32], b"info").unwrap();
    aws_lc::hkdf_expand(alg, &mut b, &[7; 32], b"info").unwrap();
    assert_eq!(a, b);
    assert_eq!(
        rustls_provider::hkdf_expand_with_suite(&suite, alg, &mut a, &[7; 65], b"info"),
        Err(Error::CryptoFail)
    );
    assert_eq!(a, b);
    let mut more = vec![1; 255 * 32 + 1];
    assert_eq!(
        rustls_provider::hkdf_expand_with_suite(&suite, alg, &mut more, &[7; 32], b"info"),
        Err(Error::CryptoFail)
    );
    assert!(more.iter().all(|byte| *byte == 1));

    assert_eq!(
        rustls_provider::hmac_with_suite(&suite, b"key", b"data"),
        Ok(quic_crypto::hmac_sha256(b"key", b"data"))
    );
    assert_eq!(
        rustls_provider::hmac_with_suite(&suite, &[0; 65], b"data"),
        Err(Error::CryptoFail)
    );
    let longer = rustls_provider::tls13_suite_for_algorithm(Algorithm::AES256_GCM).unwrap();
    assert_eq!(
        rustls_provider::hmac_with_suite(&longer, b"key", b"data"),
        Err(Error::CryptoFail)
    );

    let cid = unhex("8394c8f03e515708");
    let keys = rustls_provider::initial_keys_with_suite(&suite, &cid, 1, false).unwrap();
    let server = rustls_provider::initial_keys(&cid, 1, true).unwrap();
    let mut payload = b"hello".to_vec();
    let tag = keys.local.packet.encrypt_in_place(3, b"header", &mut payload, None).unwrap();
    payload.extend_from_slice(tag.as_ref());
    assert_eq!(
        server.remote.packet.decrypt_in_place(3, b"header", &mut payload, None).unwrap(),
        b"hello"
    );
}

#[test]
fn lists_are_measured_up_to_a_limit() {
    assert_eq!(list_len(&Vec::new(), 5, 0), Some(0));
    let list = vec![vec![0; 3], Vec::new(), vec![0; 4]];
    assert_eq!(list_len(&list, 2, 13), Some(13));
    assert_eq!(list_len(&list, 2, 12), None);
    assert_eq!(list_len(&list, 0, 100), Some(7));
    assert_eq!(list_len(&list, usize::MAX, 100), None);
}
