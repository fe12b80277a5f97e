use margo_fetch::{CargoLockfile, Crate, CrateOwned, ParseError};

const REGISTRY: &str = "registry+https://github.com/rust-lang/crates.io-index";

fn entry(key: &str, value: &str) -> (String, String) {
    (key.to_string(), value.to_string())
}

#[test]
fn parses_a_registry_entry() {
    let record = Crate::parse_from_parts(
        "checksum foo 1.0.0 (registry+https://example.org/index)",
        "abcd",
    )
    .unwrap();
    assert_eq!(record.crate_name, "foo");
    assert_eq!(record.version, "1.0.0");
    assert_eq!(record.source, "registry+https://example.org/index");
    assert_eq!(record.checksum, Some("abcd"));
}

#[test]
fn none_marker_gives_no_checksum() {
    let record =
        Crate::parse_from_parts("checksum foo 1.0.0 (git+https://example.org/foo)", "<none>")
            .unwrap();
    assert_eq!(record.checksum, None);
}

#[test]
fn any_other_value_is_the_checksum_as_it_stands() {
    for value in ["", "<None>", " <none>", "<none> ", "none", "0123abcd", "not hex at all"] {
        let record = Crate::parse_from_parts("checksum a 1 (s)", value).unwrap();
        assert_eq!(record.checksum, Some(value));
    }
}

#[test]
fn rejects_a_key_without_the_pattern() {
    for key in [
        "",
        "foo 1.0.0",
        "checksum",
        "checksum foo",
        "checksum foo 1.0.0",
        "checksum foo 1.0.0 ()",
        "checksum foo 1.0.0 (source",
        "checksum foo  (source)",
        "checksum  1.0.0 (source)",
        "checksumfoo 1.0.0 (source)",
        "Checksum foo 1.0.0 (source)",
        "checksum foo\n1.0.0 (source)",
        "checksum foo 1.0.0\n(source)",
        "checksum foo 1.0.0 (sou\nrce)",
    ] {
        assert_eq!(
            Crate::parse_from_parts(key, "abcd"),
            Err(ParseError::MalformedKey),
            "{:?}",
            key
        );
    }
}

#[test]
fn key_may_stand_anywhere_in_the_text() {
    let record =
        Crate::parse_from_parts("first line\n  checksum foo 1.0.0 (src) trailing", "x").unwrap();
    assert_eq!(record.crate_name, "foo");
    assert_eq!(record.version, "1.0.0");
    assert_eq!(record.source, "src");
}

#[test]
fn name_takes_as_much_as_it_can() {
    let record = Crate::parse_from_parts("checksum a b c d (e)", "x").unwrap();
    assert_eq!(record.crate_name, "a b c");
    assert_eq!(record.version, "d");
    assert_eq!(record.source, "e");
}

#[test]
fn source_runs_to_the_last_closing_bracket() {
    let record = Crate::parse_from_parts("checksum a 1 (b (c) d) e) f", "x").unwrap();
    assert_eq!(record.crate_name, "a 1");
    assert_eq!(record.version, "(b");
    assert_eq!(record.source, "c) d) e");

    let record = Crate::parse_from_parts("checksum a 1 (b)c)", "x").unwrap();
    assert_eq!(record.crate_name, "a");
    assert_eq!(record.version, "1");
    assert_eq!(record.source, "b)c");
}

#[test]
fn first_line_that_holds_a_key_is_read() {
    let record = Crate::parse_from_parts(
        "checksum broken\nchecksum a 1 (first)\nchecksum b 2 (second)",
        "x",
    )
    .unwrap();
    assert_eq!(record.crate_name, "a");
    assert_eq!(record.version, "1");
    assert_eq!(record.source, "first");
}

#[test]
fn fields_may_hold_any_characters_but_a_line_break() {
    let record = Crate::parse_from_parts("checksum nä\tme 1.0.0-β (sörce+ü)", "x").unwrap();
    assert_eq!(record.crate_name, "nä\tme");
    assert_eq!(record.version, "1.0.0-β");
    assert_eq!(record.source, "sörce+ü");
}

#[test]
fn records_are_equal_when_all_four_fields_are() {
    let a = Crate::new("foo", "1.0.0", "src", Some("ab"));
    assert_eq!(a, Crate::new("foo", "1.0.0", "src", Some("ab")));
    assert_ne!(a, Crate::new("bar", "1.0.0", "src", Some("ab")));
    assert_ne!(a, Crate::new("foo", "1.0.1", "src", Some("ab")));
    assert_ne!(a, Crate::new("foo", "1.0.0", "other", Some("ab")));
    assert_ne!(a, Crate::new("foo", "1.0.0", "src", Some("cd")));
    assert_ne!(a, Crate::new("foo", "1.0.0", "src", None));
}

#[test]
fn owned_and_borrowed_records_hold_the_same() {
    let borrowed = Crate::new("foo", "1.0.0", "src", Some("ab"));
    let owned = borrowed.to_owned();
    assert_eq!(
        owned,
        CrateOwned {
            crate_name: "foo".to_string(),
            version: "1.0.0".to_string(),
            source: "src".to_string(),
            checksum: Some("ab".to_string()),
        }
    );
    assert_eq!(owned.as_ref(), borrowed);

    let without = Crate::new("foo", "1.0.0", "src", None);
    assert_eq!(without.to_owned().checksum, None);
    assert_eq!(without.to_owned().as_ref(), without);
}

#[test]
fn lockfile_lists_every_entry_in_order() {
    let lockfile = CargoLockfile::new(vec![
        entry("checksum b 2.0.0 (git+https://example.org/b)", "<none>"),
        entry(&format!("checksum a 1.0.0 ({})", REGISTRY), "aa"),
        entry("checksum c 3.0.0 (path)", "cc"),
    ])
    .unwrap();
    assert_eq!(lockfile.len(), 3);
    let records = lockfile.crates().unwrap();
    assert_eq!(
        records,
        vec![
            Crate::new("b", "2.0.0", "git+https://example.org/b", None),
            Crate::new("a", "1.0.0", REGISTRY, Some("aa")),
            Crate::new("c", "3.0.0", "path", Some("cc")),
        ]
    );
}

#[test]
fn empty_lockfile_has_no_records() {
    let lockfile = CargoLockfile::new(vec![]).unwrap();
    assert_eq!(lockfile.len(), 0);
    assert_eq!(lockfile.crates().unwrap(), vec![]);
    assert_eq!(lockfile.fetchable_crates().unwrap(), vec![]);
}

#[test]
fn lockfile_refuses_a_key_given_twice() {
    let made = CargoLockfile::new(vec![
        entry("checksum a 1.0.0 (s)", "aa"),
        entry("checksum b 1.0.0 (s)", "bb"),
        entry("checksum a 1.0.0 (s)", "cc"),
    ]);
    assert_eq!(made.err(), Some(ParseError::DuplicateKey));
}

#[test]
fn lockfile_accepts_a_value_given_twice() {
    let made = CargoLockfile::new(vec![
        entry("checksum a 1.0.0 (s)", "aa"),
        entry("checksum b 1.0.0 (s)", "aa"),
    ]);
    assert!(made.is_ok());
}

#[test]
fn one_malformed_key_fails_the_whole_listing() {
    let lockfile = CargoLockfile::new(vec![
        entry(&format!("checksum a 1.0.0 ({})", REGISTRY), "aa"),
        entry("not a key", "bb"),
    ])
    .unwrap();
    assert_eq!(lockfile.crates(), Err(ParseError::MalformedKey));
    assert_eq!(lockfile.fetchable_crates(), Err(ParseError::MalformedKey));
}

#[test]
fn fetchable_records_come_from_the_registry_and_have_a_checksum() {
    let lockfile = CargoLockfile::new(vec![
        entry(&format!("checksum a 1.0.0 ({})", REGISTRY), "aa"),
        entry(&format!("checksum b 1.0.0 ({})", REGISTRY), "<none>"),
        entry("checksum c 1.0.0 (git+https://example.org/c)", "cc"),
        entry("checksum d 1.0.0 (git+https://example.org/d)", "<none>"),
        entry("checksum e 1.0.0 (registry+https://example.org/index)", "ee"),
        entry(&format!("checksum f 2.0.0 ({})", REGISTRY), "ff"),
    ])
    .unwrap();
    assert_eq!(
        lockfile.fetchable_crates().unwrap(),
        vec![
            Crate::new("a", "1.0.0", REGISTRY, Some("aa")),
            Crate::new("f", "2.0.0", REGISTRY, Some("ff")),
        ]
    );
}

#[test]
fn source_must_be_the_registry_exactly() {
    let lockfile = CargoLockfile::new(vec![
        entry(&format!("checksum a 1.0.0 ({}/)", REGISTRY), "aa"),
        entry(&format!("checksum b 1.0.0 ( {})", REGISTRY), "bb"),
        entry("checksum c 1.0.0 (registry+https://github.com/rust-lang/crates.io-inde)", "cc"),
    ])
    .unwrap();
    assert_eq!(lockfile.crates().unwrap().len(), 3);
    assert_eq!(lockfile.fetchable_crates().unwrap(), vec![]);
}
