use secp256k1_zkp::constants;
use secp256k1_zkp::ecdsa::Signature;
use secp256k1_zkp::{Error, Message};

fn hex_bytes(s: &str) -> Vec<u8> {
    assert!(s.len() % 2 == 0);
    (0..s.len() / 2)
        .map(|i| u8::from_str_radix(&s[2 * i..2 * i + 2], 16).unwrap())
        .collect()
}

#[test]
fn signature_display() {
    const HEX_STR: &str = "3046022100839c1fbc5304de944f697c9f4b1d01d1faeba32d751c0f7acb21ac8a0f436a72022100e89bd46bb3a5a62adc679f659b7ce876d83ee297c7a5587b2011c4fcc72eab45";
    let byte_str = hex_bytes(HEX_STR);

    assert_eq!(
        Signature::from_der(&byte_str).expect("byte str decode"),
        Signature::from_str(HEX_STR).expect("byte str decode")
    );

    let sig = Signature::from_str(HEX_STR).expect("byte str decode");
    assert_eq!(&sig.to_string(), HEX_STR);
    assert_eq!(&sig.serialize_der().to_string(), HEX_STR);

    assert!(Signature::from_str(
        "3046022100839c1fbc5304de944f697c9f4b1d01d1faeba32d751c0f7acb21ac8a0f436a\
         72022100e89bd46bb3a5a62adc679f659b7ce876d83ee297c7a5587b2011c4fcc72eab4"
    )
    .is_err());
    assert!(Signature::from_str(
        "3046022100839c1fbc5304de944f697c9f4b1d01d1faeba32d751c0f7acb21ac8a0f436a\
         72022100e89bd46bb3a5a62adc679f659b7ce876d83ee297c7a5587b2011c4fcc72eab"
    )
    .is_err());
    assert!(Signature::from_str(
        "3046022100839c1fbc5304de944f697c9f4b1d01d1faeba32d751c0f7acb21ac8a0f436a\
         72022100e89bd46bb3a5a62adc679f659b7ce876d83ee297c7a5587b2011c4fcc72eabxx"
    )
    .is_err());
    assert!(Signature::from_str(
        "3046022100839c1fbc5304de944f697c9f4b1d01d1faeba32d751c0f7acb21ac8a0f436a\
         72022100e89bd46bb3a5a62adc679f659b7ce876d83ee297c7a5587b2011c4fcc72eab45\
         72022100e89bd46bb3a5a62adc679f659b7ce876d83ee297c7a5587b2011c4fcc72eab45\
         72022100e89bd46bb3a5a62adc679f659b7ce876d83ee297c7a5587b2011c4fcc72eab45\
         72022100e89bd46bb3a5a62adc679f659b7ce876d83ee297c7a5587b2011c4fcc72eab45\
         72022100e89bd46bb3a5a62adc679f659b7ce876d83ee297c7a5587b2011c4fcc72eab45"
    )
    .is_err());

    // 71 byte signature
    let hex_str = "30450221009d0bad576719d32ae76bedb34c774866673cbde3f4e12951555c9408e6ce774b02202876e7102f204f6bfee26c967c3926ce702cf97d4b010062e193f763190f6776";
    let sig = Signature::from_str(hex_str).expect("byte str decode");
    assert_eq!(&sig.to_string(), hex_str);
}

#[test]
fn signature_lax_der() {
    let check_lax_sig = |h: &str| {
        let sig = hex_bytes(h);
        assert!(Signature::from_der_lax(&sig[..]).is_ok());
    };

    check_lax_sig("304402204c2dd8a9b6f8d425fcd8ee9a20ac73b619906a6367eac6cb93e70375225ec0160220356878eff111ff3663d7e6bf08947f94443845e0dcc54961664d922f7660b80c");
    check_lax_sig("304402202ea9d51c7173b1d96d331bd41b3d1b4e78e66148e64ed5992abd6ca66290321c0220628c47517e049b3e41509e9d71e480a0cdc766f8cdec265ef0017711c1b5336f");
    check_lax_sig("3045022100bf8e050c85ffa1c313108ad8c482c4849027937916374617af3f2e9a881861c9022023f65814222cab09d5ec41032ce9c72ca96a5676020736614de7b78a4e55325a");
    check_lax_sig("3046022100839c1fbc5304de944f697c9f4b1d01d1faeba32d751c0f7acb21ac8a0f436a72022100e89bd46bb3a5a62adc679f659b7ce876d83ee297c7a5587b2011c4fcc72eab45");
    check_lax_sig("3046022100eaa5f90483eb20224616775891397d47efa64c68b969db1dacb1c30acdfc50aa022100cf9903bbefb1c8000cf482b0aeeb5af19287af20bd794de11d82716f9bae3db1");
    check_lax_sig("3045022047d512bc85842ac463ca3b669b62666ab8672ee60725b6c06759e476cebdc6c102210083805e93bd941770109bcc797784a71db9e48913f702c56e60b1c3e2ff379a60");
    check_lax_sig("3044022023ee4e95151b2fbbb08a72f35babe02830d14d54bd7ed1320e4751751d1baa4802206235245254f58fd1be6ff19ca291817da76da65c2f6d81d654b5185dd86b8acf");
}

#[test]
fn test_bad_slice() {
    assert_eq!(
        Signature::from_der(&[0; constants::MAX_SIGNATURE_SIZE + 1]),
        Err(Error::InvalidSignature)
    );
    assert_eq!(
        Signature::from_der(&[0; constants::MAX_SIGNATURE_SIZE]),
        Err(Error::InvalidSignature)
    );

    assert_eq!(
        Message::from_digest_slice(&[0; constants::MESSAGE_SIZE - 1]),
        Err(Error::InvalidMessage)
    );
    assert_eq!(
        Message::from_digest_slice(&[0; constants::MESSAGE_SIZE + 1]),
        Err(Error::InvalidMessage)
    );
    assert!(Message::from_digest_slice(&[0; constants::MESSAGE_SIZE]).is_ok());
    assert!(Message::from_digest_slice(&[1; constants::MESSAGE_SIZE]).is_ok());
}
