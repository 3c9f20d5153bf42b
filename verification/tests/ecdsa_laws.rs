use secp256k1_zkp::constants;
use secp256k1_zkp::ecdsa::Signature;
use secp256k1_zkp::{All, Context, SignOnly, VerifyOnly, Error, InvalidParityValue, Keypair, Message, PublicKey, Secp256k1, SecretKey, XOnlyPublicKey};

fn hex_bytes(s: &str) -> Vec<u8> {
    assert!(s.len() % 2 == 0);
    (0..s.len() / 2)
        .map(|i| u8::from_str_radix(&s[2 * i..2 * i + 2], 16).unwrap())
        .collect()
}

const HIGH_S_DER: &str = "3046022100839c1fbc5304de944f697c9f4b1d01d1faeba32d751c0f7acb21ac8a0f436a72022100e89bd46bb3a5a62adc679f659b7ce876d83ee297c7a5587b2011c4fcc72eab45";
const ORDER: &str = "fffffffffffffffffffffffffffffffebaaedce6af48a03bbfd25e8cd0364141";
const HALF_ORDER: &str = "7fffffffffffffffffffffffffffffff5d576e7357a4501ddfe92f46681b20a0";

#[test]
fn compact_roundtrip() {
    let sig = Signature::from_str(HIGH_S_DER).unwrap();
    let compact = sig.serialize_compact();
    assert_eq!(Signature::from_compact(&compact), Ok(sig));
    assert_eq!(Signature::from_compact(&compact).unwrap().serialize_compact(), compact);
    assert_eq!(&compact[..32], &hex_bytes("839c1fbc5304de944f697c9f4b1d01d1faeba32d751c0f7acb21ac8a0f436a72")[..]);
}

#[test]
fn compact_rejects_out_of_range_and_bad_lengths() {
    assert_eq!(Signature::from_compact(&[1u8; 63]), Err(Error::InvalidSignature));
    assert_eq!(Signature::from_compact(&[1u8; 65]), Err(Error::InvalidSignature));
    let order = hex_bytes(ORDER);
    let mut c = [0u8; 64];
    c[..32].copy_from_slice(&order);
    c[63] = 1;
    assert_eq!(Signature::from_compact(&c), Err(Error::InvalidSignature));
    c[31] = 0x40; // n - 1 for r
    assert!(Signature::from_compact(&c).is_ok());
    c[32..].copy_from_slice(&order);
    assert_eq!(Signature::from_compact(&c), Err(Error::InvalidSignature));
    // zero halves are in range
    assert!(Signature::from_compact(&[0u8; 64]).is_ok());
}

#[test]
fn compact_agrees_with_libsecp256k1() {
    let order = hex_bytes(ORDER);
    for last in [0x3fu8, 0x40, 0x41, 0x42] {
        let mut c = [0u8; 64];
        c[..32].copy_from_slice(&order);
        c[31] = last;
        c[63] = 5;
        assert_eq!(
            Signature::from_compact(&c).is_ok(),
            secp256k1::ecdsa::Signature::from_compact(&c).is_ok()
        );
    }
}

#[test]
fn normalize_s_negates_high_s() {
    let mut sig = Signature::from_str(HIGH_S_DER).unwrap();
    let before = sig.serialize_compact();
    sig.normalize_s();
    let after = sig.serialize_compact();
    assert_eq!(&after[..32], &before[..32]);
    assert_eq!(
        &after[32..],
        &hex_bytes("17642b944c5a59d52398609a64831787e26ffa4ee7a347c09fc09990090795fc")[..]
    );
    let mut theirs = secp256k1::ecdsa::Signature::from_der(&hex_bytes(HIGH_S_DER)).unwrap();
    theirs.normalize_s();
    assert_eq!(theirs.serialize_compact(), after);
}

#[test]
fn normalize_s_is_idempotent() {
    let mut sig = Signature::from_str(HIGH_S_DER).unwrap();
    sig.normalize_s();
    let once = sig;
    sig.normalize_s();
    assert_eq!(sig, once);
}

#[test]
fn normalize_s_keeps_half_order_and_moves_one_above() {
    let half = hex_bytes(HALF_ORDER);
    let mut c = [0u8; 64];
    c[31] = 1;
    c[32..].copy_from_slice(&half);
    let mut sig = Signature::from_compact(&c).unwrap();
    sig.normalize_s();
    assert_eq!(sig.serialize_compact(), c);
    c[63] += 1; // n/2 + 1 becomes n - (n/2 + 1) == n/2
    let mut sig = Signature::from_compact(&c).unwrap();
    sig.normalize_s();
    assert_eq!(&sig.serialize_compact()[32..], &half[..]);
}

#[test]
fn der_roundtrip_and_agreement() {
    let sig = Signature::from_str(HIGH_S_DER).unwrap();
    let der = sig.serialize_der();
    assert_eq!(der.len(), 72);
    assert!(!der.is_empty());
    assert_eq!(der.as_bytes(), &hex_bytes(HIGH_S_DER)[..]);
    assert_eq!(der.to_signature(), Ok(sig));
    let mut c = [0u8; 64];
    c[31] = 1;
    c[63] = 0x80;
    let small = Signature::from_compact(&c).unwrap();
    let der = small.serialize_der();
    assert_eq!(der.as_bytes(), &[0x30, 0x07, 0x02, 0x01, 0x01, 0x02, 0x02, 0x00, 0x80]);
    let theirs = secp256k1::ecdsa::Signature::from_compact(&c).unwrap();
    assert_eq!(&theirs.serialize_der()[..], der.as_bytes());
    let zero = Signature::from_compact(&[0u8; 64]).unwrap();
    assert_eq!(zero.serialize_der().as_bytes(), &[0x30, 0x06, 0x02, 0x01, 0x00, 0x02, 0x01, 0x00]);
}

#[test]
fn display_fromstr_roundtrip() {
    let mut c = [0x11u8; 64];
    c[0] = 0x80;
    let sig = Signature::from_compact(&c).unwrap();
    let s = sig.to_string();
    assert_eq!(Signature::from_str(&s), Ok(sig));
    assert_eq!(Signature::from_str(&s.to_uppercase()), Ok(sig));
}

#[test]
fn from_der_empty_is_error() {
    assert_eq!(Signature::from_der(&[]), Err(Error::InvalidSignature));
    assert_eq!(Signature::from_der_lax(&[]), Err(Error::InvalidSignature));
    assert_eq!(Signature::from_str(""), Err(Error::InvalidSignature));
}

#[test]
fn verify_doc_example() {
    let secp = Secp256k1::verification_only();
    let public_key = PublicKey::from_byte_array_compressed([
        0x02, 0xc6, 0x6e, 0x7d, 0x89, 0x66, 0xb5, 0xc5, 0x55, 0xaf, 0x58, 0x05, 0x98, 0x9d, 0xa9,
        0xfb, 0xf8, 0xdb, 0x95, 0xe1, 0x56, 0x31, 0xce, 0x35, 0x8c, 0x3a, 0x17, 0x10, 0xc9, 0x62,
        0x67, 0x90, 0x63,
    ])
    .expect("public keys must be 33 or 65 bytes, serialized according to SEC 2");
    let message = Message::from_digest([
        0xaa, 0xdf, 0x7d, 0xe7, 0x82, 0x03, 0x4f, 0xbe, 0x3d, 0x3d, 0xb2, 0xcb, 0x13, 0xc0, 0xcd,
        0x91, 0xbf, 0x41, 0xcb, 0x08, 0xfa, 0xc7, 0xbd, 0x61, 0xd5, 0x44, 0x53, 0xcf, 0x6e, 0x82,
        0xb4, 0x50,
    ]);
    let sig = Signature::from_compact(&[
        0xdc, 0x4d, 0xc2, 0x64, 0xa9, 0xfe, 0xf1, 0x7a, 0x3f, 0x25, 0x34, 0x49, 0xcf, 0x8c, 0x39,
        0x7a, 0xb6, 0xf1, 0x6f, 0xb3, 0xd6, 0x3d, 0x86, 0x94, 0x0b, 0x55, 0x86, 0x82, 0x3d, 0xfd,
        0x02, 0xae, 0x3b, 0x46, 0x1b, 0xb4, 0x33, 0x6b, 0x5e, 0xcb, 0xae, 0xfd, 0x66, 0x27, 0xaa,
        0x92, 0x2e, 0xfc, 0x04, 0x8f, 0xec, 0x0c, 0x88, 0x1c, 0x10, 0xc4, 0xc9, 0x42, 0x8f, 0xca,
        0x69, 0xc1, 0x32, 0xa2,
    ])
    .expect("compact signatures are 64 bytes; DER signatures are 68-72 bytes");
    assert!(secp.verify_ecdsa(&message, &sig, &public_key).is_ok());

    let other = Message::from_digest([0xcd; 32]);
    assert_eq!(secp.verify_ecdsa(&other, &sig, &public_key), Err(Error::IncorrectSignature));
}

#[test]
fn high_s_never_verifies() {
    let secp = Secp256k1::new();
    let sk = SecretKey::from_byte_array([0xcd; 32]).unwrap();
    let pk = PublicKey::from_secret_key(&sk);
    let msg = Message::from_digest([0xab; 32]);
    let theirs = secp256k1::ecdsa::sign(
        secp256k1::Message::from_digest([0xab; 32]),
        &secp256k1::SecretKey::from_secret_bytes([0xcd; 32]).unwrap(),
    );
    let sig = Signature::from_compact(&theirs.serialize_compact()).unwrap();
    assert!(secp.verify_ecdsa(&msg, &sig, &pk).is_ok());
    // negate s: (r, n - s) is high
    let order = hex_bytes(ORDER);
    let c = sig.serialize_compact();
    let mut neg = c;
    let mut borrow = 0i32;
    for i in (0..32).rev() {
        let d = order[i] as i32 - c[32 + i] as i32 - borrow;
        neg[32 + i] = d.rem_euclid(256) as u8;
        borrow = if d < 0 { 1 } else { 0 };
    }
    let mut high = Signature::from_compact(&neg).unwrap();
    assert_eq!(secp.verify_ecdsa(&msg, &high, &pk), Err(Error::IncorrectSignature));
    high.normalize_s();
    assert_eq!(high, sig);
}

#[test]
fn secret_key_range() {
    assert_eq!(SecretKey::from_byte_array([0u8; 32]), Err(Error::InvalidSecretKey));
    let mut n: [u8; 32] = hex_bytes(ORDER).try_into().unwrap();
    assert_eq!(SecretKey::from_byte_array(n), Err(Error::InvalidSecretKey));
    n[31] -= 1;
    let sk = SecretKey::from_byte_array(n).unwrap();
    assert_eq!(sk.secret_bytes(), n);
    assert!(SecretKey::from_byte_array([0xff; 32]).is_err());
    let mut one = [0u8; 32];
    one[31] = 1;
    assert!(SecretKey::from_byte_array(one).is_ok());
}

#[test]
fn keys_agree_with_libsecp256k1() {
    let sk = SecretKey::from_byte_array([0xcd; 32]).unwrap();
    let pk = PublicKey::from_secret_key(&sk);
    let theirs = secp256k1::PublicKey::from_secret_key(
        &secp256k1::SecretKey::from_secret_bytes([0xcd; 32]).unwrap(),
    );
    assert_eq!(pk.serialize(), theirs.serialize());
    assert_eq!(PublicKey::from_byte_array_compressed(pk.serialize()), Ok(pk));
    let mut bad = pk.serialize();
    bad[0] = 0x05;
    assert_eq!(PublicKey::from_byte_array_compressed(bad), Err(Error::InvalidPublicKey));
    let kp = Keypair::from_secret_key(&sk);
    assert_eq!(kp.secret_bytes(), [0xcd; 32]);
    assert_eq!(kp.secret_key(), sk);
    assert_eq!(kp.public_key(), pk);
    let mut x = [0u8; 32];
    x.copy_from_slice(&pk.serialize()[1..]);
    let xonly = XOnlyPublicKey::from_byte_array(x).unwrap();
    assert_eq!(xonly.serialize(), x);
    assert_eq!(XOnlyPublicKey::from_byte_array([0xff; 32]), Err(Error::InvalidPublicKey));
}

#[test]
fn message_constructors_and_display() {
    let m = Message::from_digest([0xab; 32]);
    assert_eq!(m.to_byte_array(), [0xab; 32]);
    assert_eq!(m.to_string(), "ab".repeat(32));
    assert_eq!(Message::from_slice(&[0xab; 32]), Ok(m));
    assert_eq!(Message::from_slice(&[0xab; 33]), Err(Error::InvalidMessage));
    assert_eq!(constants::MESSAGE_SIZE, 32);
}

struct Fixed([u8; 32]);

impl secp256k1_zkp::ThirtyTwoByteHash for Fixed {
    fn into_32(self) -> [u8; 32] {
        self.0
    }
}

#[test]
fn message_from_thirty_two_byte_hash() {
    let m = Message::from(Fixed([7; 32]));
    assert_eq!(m, Message::from_digest([7; 32]));
}

#[test]
fn error_texts_and_sources() {
    assert_eq!(Error::InvalidSignature.to_string(), "malformed signature");
    assert_eq!(Error::IncorrectSignature.to_string(), "signature failed verification");
    assert_eq!(
        Error::InvalidMessage.to_string(),
        "message was not 32 bytes (do you need to hash?)"
    );
    let parity = Error::InvalidParityValue(InvalidParityValue(2));
    assert_eq!(parity.to_string(), "couldn't create parity");
    assert_eq!(parity.source(), Some(InvalidParityValue(2)));
    assert_eq!(Error::InvalidTweak.source(), None);
    assert_eq!(InvalidParityValue(2).invalid_value(), 2);
}

#[test]
fn randomize_keeps_engine_usable() {
    let mut secp = Secp256k1::new();
    secp.seeded_randomize(&[3u8; 32]);
    assert_eq!(secp, Secp256k1::new());
}

#[test]
fn lax_parse_agrees_with_strict_on_strict_der() {
    let bytes = hex_bytes(HIGH_S_DER);
    assert_eq!(Signature::from_der_lax(&bytes), Signature::from_der(&bytes));
    // lax accepts padded integers and trailing bytes that strict DER rejects
    let strict_bad = hex_bytes("3007020200010201020000");
    assert_eq!(Signature::from_der(&strict_bad), Err(Error::InvalidSignature));
    let lax = Signature::from_der_lax(&strict_bad).unwrap();
    let mut expected = [0u8; 64];
    expected[31] = 1;
    expected[63] = 2;
    assert_eq!(lax.serialize_compact(), expected);
}

#[test]
fn from_parsed_maps_outcomes() {
    let mut c = [0u8; 64];
    c[5] = 9;
    assert_eq!(Signature::from_parsed(Some(c)).unwrap().serialize_compact(), c);
    assert_eq!(Signature::from_parsed(None), Err(Error::InvalidSignature));
}

#[test]
fn preallocate_words_rounds_up() {
    assert_eq!(Secp256k1::<All>::preallocate_words(0, 16), 0);
    assert_eq!(Secp256k1::<All>::preallocate_words(1, 16), 1);
    assert_eq!(Secp256k1::<All>::preallocate_words(16, 16), 1);
    assert_eq!(Secp256k1::<All>::preallocate_words(17, 16), 2);
    assert_eq!(Secp256k1::<All>::preallocate_words(usize::MAX, 1), usize::MAX);
    assert_eq!(Secp256k1::<All>::preallocate_words(usize::MAX, 2), usize::MAX / 2 + 1);
}

#[test]
fn parse_through_from_str_trait() {
    let sig: Signature = HIGH_S_DER.parse().unwrap();
    assert_eq!(sig, Signature::from_str(HIGH_S_DER).unwrap());
    assert_eq!("zz".parse::<Signature>(), Err(Error::InvalidSignature));
}

#[test]
fn from_parsed_rejects_out_of_range_halves() {
    assert_eq!(Signature::from_parsed(Some([0xff; 64])), Err(Error::InvalidSignature));
}

#[test]
fn lax_parse_reads_back_serialized_der() {
    let mut c = [0u8; 64];
    c[31] = 7;
    let sig = Signature::from_compact(&c).unwrap();
    let der = sig.serialize_der();
    assert_eq!(Signature::from_der_lax(der.as_bytes()), Ok(sig));
    let strict = Signature::from_str(HIGH_S_DER).unwrap();
    assert_eq!(Signature::from_der_lax(strict.serialize_der().as_bytes()), Ok(strict));
}

#[test]
fn error_texts_are_distinct() {
    let all = [
        Error::IncorrectSignature, Error::InvalidMessage, Error::InvalidPublicKey,
        Error::InvalidSignature, Error::InvalidSecretKey, Error::InvalidSharedSecret,
        Error::InvalidRecoveryId, Error::InvalidTweak, Error::NotEnoughMemory,
        Error::InvalidPublicKeySum, Error::InvalidParityValue(InvalidParityValue(5)),
        Error::InvalidEllSwift, Error::CannotProveSurjection, Error::InvalidSurjectionProof,
        Error::InvalidPedersenCommitment, Error::CannotMakeRangeProof, Error::InvalidRangeProof,
        Error::InvalidGenerator, Error::InvalidTweakLength, Error::TweakOutOfBounds,
        Error::InvalidEcdsaAdaptorSignature, Error::CannotDecryptAdaptorSignature,
        Error::CannotRecoverAdaptorSecret, Error::CannotVerifyAdaptorSignature,
        Error::InvalidWhitelistSignature, Error::InvalidPakList,
        Error::CannotCreateWhitelistSignature, Error::InvalidWhitelistProof,
    ];
    for (i, a) in all.iter().enumerate() {
        assert!(!a.to_string().is_empty());
        for b in &all[i + 1..] {
            assert_ne!(a.to_string(), b.to_string());
        }
    }
    assert_eq!(Error::InvalidTweakLength.to_string(), "Tweak must of size 32");
}

#[test]
fn context_kinds() {
    assert_eq!(<All as Context>::flags(), 0x301);
    assert_eq!(<SignOnly as Context>::flags(), 0x201);
    assert_eq!(<VerifyOnly as Context>::flags(), 0x101);
    assert_eq!(<All as Context>::description(), "all capabilities");
    assert_eq!(<VerifyOnly as Context>::flags(), secp256k1_zkp_sys::SECP256K1_START_VERIFY);
    assert_eq!(<SignOnly as Context>::flags(), secp256k1_zkp_sys::SECP256K1_START_SIGN);
    let _signer = Secp256k1::signing_only();
}

#[test]
fn compressed_key_validity_is_a_curve_x_test() {
    for (x, on_curve) in [(1u8, true), (2, true), (5, false), (6, true), (7, false)] {
        let mut b = [0u8; 33];
        b[0] = 0x02;
        b[32] = x;
        assert_eq!(PublicKey::from_byte_array_compressed(b).is_ok(), on_curve);
        b[0] = 0x03;
        assert_eq!(PublicKey::from_byte_array_compressed(b).is_ok(), on_curve);
        b[0] = 0x04;
        assert!(PublicKey::from_byte_array_compressed(b).is_err());
        let mut x_only = [0u8; 32];
        x_only[31] = x;
        assert_eq!(XOnlyPublicKey::from_byte_array(x_only).is_ok(), on_curve);
    }
}
