use num_bigint::BigInt;
use ptypes::Alphabet;
use ptypes::Base64urlUInt;
use ptypes::Error;

#[test]
fn test_base64url_uint() {
    let data = Base64urlUInt(vec![1, 2, 3]);
    assert_eq!(data, Base64urlUInt::try_from("AQID".to_string()).unwrap());
    let string = String::from(&data);
    assert_eq!(string, "AQID");
    let string: String = data.clone().into();
    assert_eq!(string, "AQID");
    let bigint: BigInt = data.clone().into();
    assert_eq!(bigint, BigInt::from(66051));
    assert_eq!(data.to_string(), "AQID");
}

#[test]
fn both_alphabets_encode_small_bytes_alike() {
    let data = Base64urlUInt(vec![1, 2, 3]);
    assert_eq!(data.encode(Alphabet::StandardNoPad), "AQID");
    assert_eq!(data.encode(Alphabet::UrlSafeNoPad), "AQID");
    assert_eq!(Base64urlUInt::decode(Alphabet::StandardNoPad, "AQID").unwrap().0, vec![1, 2, 3]);
    assert_eq!(data.to_bigint(), BigInt::from(0x010203));
}

#[test]
fn alphabets_differ_on_high_symbols() {
    let data = Base64urlUInt(vec![0xfb, 0xff]);
    assert_eq!(data.encode(Alphabet::StandardNoPad), "+/8");
    assert_eq!(data.encode(Alphabet::UrlSafeNoPad), "-_8");
    assert_eq!(Base64urlUInt::decode(Alphabet::UrlSafeNoPad, "+/8"), Err(Error::InvalidBase64));
    assert_eq!(Base64urlUInt::decode(Alphabet::StandardNoPad, "-_8"), Err(Error::InvalidBase64));
}

#[test]
fn round_trip_keeps_leading_zeros_and_empty() {
    for bytes in [vec![], vec![0], vec![0, 1, 2], vec![0, 0, 0, 0], vec![255; 7]] {
        for alphabet in [Alphabet::StandardNoPad, Alphabet::UrlSafeNoPad] {
            let text = Base64urlUInt(bytes.clone()).encode(alphabet);
            let back = Base64urlUInt::decode(alphabet, &text).unwrap();
            assert_eq!(back.0, bytes);
        }
    }
    assert_eq!(Base64urlUInt(vec![0, 1, 2]).to_string(), "AAEC");
    assert_eq!(Base64urlUInt(vec![]).to_string(), "");
}

#[test]
fn padding_is_rejected() {
    assert_eq!(Base64urlUInt::decode(Alphabet::UrlSafeNoPad, "AQ=="), Err(Error::InvalidBase64));
    assert_eq!(Base64urlUInt::decode(Alphabet::UrlSafeNoPad, "AQI="), Err(Error::InvalidBase64));
    assert!(Base64urlUInt::try_from("AQID=".to_string()).is_err());
}

#[test]
fn malformed_text_is_rejected() {
    assert_eq!(Base64urlUInt::decode(Alphabet::UrlSafeNoPad, "A"), Err(Error::InvalidBase64));
    assert_eq!(Base64urlUInt::decode(Alphabet::UrlSafeNoPad, "AR"), Err(Error::InvalidBase64));
    assert_eq!(Base64urlUInt::decode(Alphabet::UrlSafeNoPad, "A!ID"), Err(Error::InvalidBase64));
    assert_eq!(Base64urlUInt::decode(Alphabet::UrlSafeNoPad, "AQ"), Ok(Base64urlUInt(vec![1])));
}

#[test]
fn bigint_of_empty_and_leading_zeros() {
    assert_eq!(Base64urlUInt(vec![]).to_bigint(), BigInt::from(0));
    assert_eq!(Base64urlUInt(vec![0, 0, 1, 0]).to_bigint(), BigInt::from(256));
}
