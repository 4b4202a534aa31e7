use vanity_wallet::selector::Selector;
use vanity_wallet::wallet::Wallet;

// The well-known development mnemonic and the address its first account
// derives to under the default path.
const KNOWN_PHRASE: &str = "test test test test test test test test test test test junk";
const KNOWN_ADDRESS: &str = "0xf39fd6e51aad88f6f4ce6ab8827279cfffb92266";

#[test]
fn derives_the_known_address() {
    let w = Wallet::new(KNOWN_PHRASE.to_string()).expect("a valid mnemonic derives");
    assert_eq!(w.phrase, KNOWN_PHRASE.to_string());
    assert_eq!(w.address, KNOWN_ADDRESS.to_string());
}

#[test]
fn derived_addresses_are_canonically_encoded() {
    let w = Wallet::new(KNOWN_PHRASE.to_string()).unwrap();
    assert_eq!(w.address.len(), 42);
    assert!(w.address.starts_with("0x"));
    assert!(w.address[2..].chars().all(|c| c.is_ascii_hexdigit()));
}

#[test]
fn invalid_phrase_is_rejected() {
    let r = Wallet::new("definitely not a mnemonic".to_string());
    assert!(r.is_err());

    // A phrase with the right words but a broken checksum is rejected too.
    let r = Wallet::new("test test test test test test test test test test test test".to_string());
    assert!(r.is_err());
}

#[test]
fn derived_wallet_feeds_the_selector() {
    let w = Wallet::new(KNOWN_PHRASE.to_string()).unwrap();
    assert!(Selector::Prefix("f39".to_string()).matches(&w));
    assert!(Selector::Suffix("2266".to_string()).matches(&w));
    assert!(!Selector::Prefix("abc".to_string()).matches(&w));
}
