use zero2prod::domain::subscriber_email::SubscriberEmail;
use zero2prod::domain::subscriber_name::{
    char_is_forbidden, char_is_whitespace, str_has_forbidden, str_is_blank, SubscriberName,
};

#[test]
fn empty_email_is_rejected() {
    let s = "";
    assert!(SubscriberEmail::parse(s).is_err());
}

#[test]
fn email_missing_at_symbol_is_rejected() {
    let s = "someone.com";
    assert!(SubscriberEmail::parse(s).is_err());
}

#[test]
fn email_missing_subject_is_rejected() {
    let s = "@domain.com";
    assert!(SubscriberEmail::parse(s).is_err());
}

#[test]
fn valid_emails_are_parsed_succesfully() {
    for s in ["ursula_le_guin@gmail.com", "a@b.co", "first.last+tag@example.org"] {
        let email = SubscriberEmail::parse(s).expect("a valid address");
        assert_eq!(email.as_ref(), s);
        assert_eq!(email.to_string(), s);
    }
}

#[test]
fn invalid_email_reports_its_message() {
    assert_eq!(SubscriberEmail::parse("definitely-not-an-email").unwrap_err(), "not a valid email");
    assert_eq!(SubscriberEmail::parse("two@@example.com").unwrap_err(), "not a valid email");
}

#[test]
fn a_256_grapheme_long_name_is_valid() {
    let s = "\u{0451}".repeat(256);
    assert!(SubscriberName::parse(&s).is_ok());
}

#[test]
fn a_name_longer_than_256_graphemes_is_rejected() {
    let s = "t".repeat(350);
    assert!(SubscriberName::parse(&s).is_err());
}

#[test]
fn empty_name_is_rejected() {
    let s = "";
    assert!(SubscriberName::parse(s).is_err());
}

#[test]
fn whitespace_name_is_rejected() {
    let s = "   ";
    assert!(SubscriberName::parse(s).is_err());
}

#[test]
fn name_with_invalid_characters_is_rejected() {
    let s = "\\ wo (";
    assert!(SubscriberName::parse(s).is_err());
}

#[test]
fn a_valid_name_is_parsed_successfully() {
    let name = SubscriberName::parse("Ursula Le Guin").expect("a valid name");
    assert_eq!(name.as_ref(), "Ursula Le Guin");
}

#[test]
fn name_errors_come_in_order() {
    assert_eq!(
        SubscriberName::parse(" \t\n").unwrap_err(),
        "subscriber name is either empty or just whitespaces"
    );
    assert_eq!(SubscriberName::parse(&"(".repeat(300)).unwrap_err(), "subscriber name is too long");
    assert_eq!(
        SubscriberName::parse("a<b").unwrap_err(),
        "subscriber name contains invalid characters"
    );
}

#[test]
fn a_257_grapheme_long_name_is_rejected() {
    assert!(SubscriberName::parse(&"a".repeat(257)).is_err());
    assert!(SubscriberName::parse(&"a".repeat(256)).is_ok());
}

#[test]
fn graphemes_are_counted_not_characters() {
    // Each cluster is a letter followed by a combining accent: two
    // characters, one grapheme.
    let s = "e\u{0301}".repeat(256);
    assert_eq!(s.chars().count(), 512);
    assert!(SubscriberName::parse(&s).is_ok());
    let s = "e\u{0301}".repeat(257);
    assert!(SubscriberName::parse(&s).is_err());
}

#[test]
fn every_forbidden_character_is_rejected() {
    for c in ['/', '(', ')', '"', '<', '>', '\\', '{', '}'] {
        assert!(char_is_forbidden(c));
        assert!(str_has_forbidden(&format!("ab{}cd", c)));
        assert!(SubscriberName::parse(&format!("ab{}cd", c)).is_err());
    }
    for c in ['a', ' ', '-', '\'', '[', ']'] {
        assert!(!char_is_forbidden(c));
    }
    assert!(!str_has_forbidden("plain name"));
}

#[test]
fn whitespace_agrees_with_the_standard_library() {
    let mut n: u32 = 0;
    while n <= 0x3100 {
        if let Some(c) = char::from_u32(n) {
            assert_eq!(char_is_whitespace(c), c.is_whitespace(), "U+{:04X}", n);
        }
        n += 1;
    }
    assert!(str_is_blank(""));
    assert!(str_is_blank(" \u{00A0}\u{3000}\t"));
    assert!(!str_is_blank("  x "));
}
