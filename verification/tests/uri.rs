use stylus_contracts::dec::{dec_str, metadata_uri};

#[test]
fn decimal_rendering_exact_values() {
    assert_eq!(dec_str(0).as_str(), "0");
    assert_eq!(dec_str(7).as_str(), "7");
    assert_eq!(dec_str(10).as_str(), "10");
    assert_eq!(dec_str(100).as_str(), "100");
    assert_eq!(dec_str(1234567890).as_str(), "1234567890");
    assert_eq!(dec_str(u64::MAX).as_str(), "18446744073709551615");
}

#[test]
fn metadata_uri_exact_values() {
    assert_eq!(metadata_uri(0).as_str(), "https://my-nft-metadata.com/0.json");
    assert_eq!(metadata_uri(42).as_str(), "https://my-nft-metadata.com/42.json");
    assert_eq!(
        metadata_uri(u64::MAX).as_str(),
        "https://my-nft-metadata.com/18446744073709551615.json"
    );
}
