use framing::semver2::{is_identifier, is_identifier_char, ParseError, SemVer};
use regex::Regex;

#[test]
fn pre_release_parse_success() {
    let mut v = SemVer::new(1, 2, 3);
    v.add_pre_release(String::from("1AlpHa99")).unwrap();
}

#[test]
fn pre_release_parse_failure1() {
    let mut v = SemVer::new(1, 2, 3);
    let is_err = v.add_pre_release(String::from("...1AlpHa99...")).is_err();
    assert_eq!(is_err, true);
}

#[test]
fn pre_release_parse_failure2() {
    let mut v = SemVer::new(1, 2, 3);
    let is_err = v.add_pre_release(String::from("5/&§/$923478")).is_err();
    assert_eq!(is_err, true);
}

#[test]
fn new_version_has_numbers_only() {
    let v = SemVer::new(1, 2, 3);
    assert_eq!(v.major(), 1);
    assert_eq!(v.minor(), 2);
    assert_eq!(v.patch(), 3);
    assert!(v.pre_release().is_empty());
    assert!(v.build_metadata().is_empty());
    assert_eq!(v.to_string(), "1.2.3");
}

#[test]
fn identifiers_are_kept_in_order() {
    let mut v = SemVer::new(10, 0, 4294967295);
    assert_eq!(v.add_pre_release(String::from("alpha")), Ok(()));
    assert_eq!(v.add_pre_release(String::from("bar")), Ok(()));
    assert_eq!(v.add_build_metadata(String::from("foo1")), Ok(()));
    assert_eq!(v.add_build_metadata(String::from("334")), Ok(()));
    assert_eq!(v.add_build_metadata(String::from("a-556")), Ok(()));
    assert_eq!(v.pre_release(), ["alpha".to_string(), "bar".to_string()]);
    assert_eq!(v.build_metadata().len(), 3);
    assert_eq!(v.build_metadata()[2], "a-556");
    assert_eq!(v.to_string(), "10.0.4294967295-alpha.bar+foo1.334.a-556");
}

#[test]
fn text_with_one_kind_of_identifier() {
    let mut v = SemVer::new(0, 0, 0);
    assert_eq!(v.add_build_metadata(String::from("b1")), Ok(()));
    assert_eq!(v.to_string(), "0.0.0+b1");
    let mut w = SemVer::new(0, 1, 0);
    assert_eq!(w.add_pre_release(String::from("rc")), Ok(()));
    assert_eq!(w.to_string(), "0.1.0-rc");
}

#[test]
fn refused_identifier_changes_nothing() {
    let mut v = SemVer::new(1, 0, 0);
    assert_eq!(v.add_pre_release(String::from("ok")), Ok(()));
    assert_eq!(v.add_pre_release(String::from("")), Err(ParseError));
    assert_eq!(v.add_pre_release(String::from("a.b")), Err(ParseError));
    assert_eq!(v.add_build_metadata(String::from("a+b")), Err(ParseError));
    assert_eq!(v.add_build_metadata(String::from("né")), Err(ParseError));
    assert_eq!(v.to_string(), "1.0.0-ok");
}

#[test]
fn parse_error_message() {
    assert_eq!(ParseError.to_string(), "invalid identifiers (allowed are [0-9A-Za-z-])");
}

#[test]
fn identifier_characters() {
    for c in ['0', '5', '9', 'A', 'M', 'Z', 'a', 'm', 'z', '-'] {
        assert!(is_identifier_char(c));
    }
    for c in ['/', ':', '@', '[', '`', '{', '.', '+', '_', ' ', '\n', 'é', '٣', 'Ａ'] {
        assert!(!is_identifier_char(c));
    }
}

#[test]
fn identifiers_agree_with_the_pattern() {
    let pattern = Regex::new(r"^[0-9A-Za-z-]+$").unwrap();
    let samples = [
        "", "-", "a", "Z9", "1AlpHa99", "...1AlpHa99...", "5/&§/$923478", "abc\n", "\nabc",
        "a\nb", "a b", "a.b", "a+b", "alpha-1", "--", "é", "aé", "0", "٣", "x_y", "ABC-xyz-019",
    ];
    for text in samples {
        assert_eq!(is_identifier(text), pattern.is_match(text));
    }
    for code in 0..0x250u32 {
        if let Some(c) = char::from_u32(code) {
            let text = format!("a{}b", c);
            assert_eq!(is_identifier(&text), pattern.is_match(&text));
            let single = c.to_string();
            assert_eq!(is_identifier(&single), pattern.is_match(&single));
        }
    }
}
