//! Canonicalization, text round-tripping, named constants, and the
//! similarity diagnostic.

use strflags::canonicalize;
use strflags::set_debug_match_ratio;
use strflags::possible_typo;
use strflags::str_eq;
use strflags::Flags;
use strflags::MatchConfig;
use strflags::Variant;

#[test]
fn canonical_form() {
    assert_eq!(canonicalize("Dark Blue"), "darkblue");
    assert_eq!(canonicalize("darkblue"), "darkblue");
    assert_eq!(canonicalize("DARKBLUE"), "darkblue");
    assert_eq!(canonicalize("dark_blue"), "darkblue");
    assert_eq!(canonicalize("dark-blue"), "darkblue");
    // idempotent: canonicalizing a canonical form changes nothing
    assert_eq!(canonicalize(&canonicalize("Dark Blue")), "darkblue");
    assert_eq!(canonicalize(""), "");
    // text to variant and back is the identity on canonical input
    let v = strflags::Variant::new("darkblue");
    assert_eq!(canonicalize(v.as_str()), "darkblue");
}

#[test]
fn named_constants() {
    let red = Variant::named("Red").unwrap();
    assert!(red.eq_str("red"));
    let dark_blue = Variant::named("DarkBlue").unwrap();
    assert!(dark_blue.eq_str("darkblue"));
    // declaring an oversized name is free; reading it is what fails
    assert!(Variant::named("NNopjejqiewjqvckqnvkoqpvjqpcqkc").is_none());
    // the budget boundary: fifteen characters fit, sixteen do not
    assert!(Variant::named("abcdefghijklmno").is_some());
    assert!(Variant::named("abcdefghijklmnop").is_none());
    // runtime construction has no such budget
    let big = Variant::new("NNopjejqiewjqvckqnvkoqpvjqpcqkc");
    assert!(big.eq_str("nnopjejqiewjqvckqnvkoqpvjqpcqkc"));
}

#[test]
fn render_text() {
    let flags = Flags::pair(Variant::new("Dog"), Variant::new("Cat"))
        .union_one(Variant::new("Giraffe"));
    assert_eq!(flags.to_text('|'), "dog|cat|giraffe");
    assert_eq!(Flags::new(Variant::new("Red")).to_text('|'), "red");
    assert_eq!(Flags::empty().to_text('|'), "");
    assert_eq!(flags.to_text(','), "dog,cat,giraffe");
}

#[test]
fn parse_text() {
    let flags = Flags::from_text("dog|cat|giraffe", '|');
    assert!(flags.len() == 3);
    assert!(flags.contains("dog"));
    assert!(flags.contains("cat"));
    assert!(flags.contains("giraffe"));
    // each piece is normalized independently
    let mixed = Flags::from_text("Dog|Dark Blue", '|');
    assert!(mixed.len() == 2);
    assert!(mixed.contains("dog"));
    assert!(mixed.contains("darkblue"));
    // duplicates collapse, preserving the dedup invariant
    let dup = Flags::from_text("dog|dog", '|');
    assert!(dup.len() == 1);
    // the empty text parses to the singleton holding the empty variant
    let empty = Flags::from_text("", '|');
    assert!(empty.len() == 1);
    assert!(empty.contains(""));
}

#[test]
fn round_trip() {
    let flags = Flags::pair(Variant::new("Dog"), Variant::new("Cat"))
        .union_one(Variant::new("Giraffe"));
    let back = Flags::from_text(flags.to_text('|').as_str(), '|');
    assert!(back.len() == 3);
    assert!(back == flags && flags == back);
    let one = Flags::new(Variant::new("Whale"));
    let back = Flags::from_text(one.to_text('|').as_str(), '|');
    assert!(back.len() == 1);
    assert!(back == one && one == back);
}

#[test]
fn exact_equality() {
    assert!(str_eq("dog", "dog"));
    assert!(!str_eq("dog", "Dog"));
    assert!(!str_eq("dog", "dogs"));
    assert!(str_eq("", ""));
    let a = Variant::new("Dog");
    let b = Variant::new("dog");
    assert!(a == b);
    let c = Variant::new("cat");
    assert!(a != c);
}

#[test]
fn similarity_diagnostic() {
    let config = MatchConfig::default();
    // lengths 5 and 6, edit distance 1, threshold (5 + 6) / 8 = 1: fires
    assert!(possible_typo("color", "colour", &config));
    // below the minimum-length gate: never fires, whatever the ratio
    let mut config = MatchConfig::default();
    assert!(!possible_typo("dog", "cat", &config));
    set_debug_match_ratio(&mut config, 1);
    assert!(!possible_typo("dog", "cat", &config));
    set_debug_match_ratio(&mut config, 100);
    assert!(!possible_typo("dog", "cat", &config));
    // distant strings of honest length do not fire: distance 4 > 8 / 8
    let config = MatchConfig::default();
    assert!(!possible_typo("aaaa", "zzzz", &config));
    // the ratio scales the threshold: distance 1, sum 9
    let mut config = MatchConfig::default();
    assert!(possible_typo("abcd", "abcde", &config));
    set_debug_match_ratio(&mut config, 10);
    assert!(!possible_typo("abcd", "abcde", &config));
}
