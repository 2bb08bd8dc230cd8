use zero2prod::domain::SubscriberName;

#[test]
fn a_256_grapheme_long_name_is_valid() {
    let name = "ё".repeat(256);
    assert!(SubscriberName::parse(name).is_ok());
}

#[test]
fn a_name_longer_than_256_graphemes_is_rejected() {
    let name = "a".repeat(257);
    assert!(SubscriberName::parse(name).is_err());
}

#[test]
fn empty_string_is_rejected() {
    let name = "".to_string();
    assert!(SubscriberName::parse(name).is_err());
}

#[test]
fn whitespace_only_names_are_rejected() {
    let name = " ".to_string();
    assert!(SubscriberName::parse(name).is_err());
}

#[test]
fn name_containing_an_invalid_character_are_rejected() {
    for name in &['/', '(', ')', '"', '<', '>', '\\', '{', '}'] {
        let name = name.to_string();
        assert!(SubscriberName::parse(name).is_err());
    }
}

#[test]
fn a_valid_name_is_parsed_successfully() {
    let name = "Ursula Le Guin".to_string();
    assert!(SubscriberName::parse(name).is_ok());
}

#[test]
fn a_valid_name_is_returned_unchanged() {
    let name = SubscriberName::parse("John Doe".to_string()).unwrap();
    assert_eq!(name.as_ref(), "John Doe");
}

#[test]
fn the_rejection_message_names_the_input() {
    let err = SubscriberName::parse("bad/name".to_string()).unwrap_err();
    assert_eq!(err, "bad/name is not a valid subscriber name");
}

#[test]
fn a_name_of_exactly_257_multibyte_graphemes_is_rejected() {
    let name = "ё".repeat(257);
    assert!(SubscriberName::parse(name).is_err());
}
