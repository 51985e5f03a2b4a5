use install_tools_tui::manifest::{parse_entries, parse_manifest, EntryKind};

#[test]
fn parse_deterministic_same_result() {
    let text = "# CLI tool\nbrew \"jq\"\ncask \"firefox\"\nmas \"Xcode\", id: 497799835\n";
    let a = parse_manifest(text);
    let b = parse_manifest(text);
    assert_eq!(a.len(), b.len());
    for i in 0..a.len() {
        assert_eq!(a[i].kind, b[i].kind);
        assert_eq!(a[i].identifier, b[i].identifier);
        assert_eq!(a[i].display_label, b[i].display_label);
        assert_eq!(a[i].description, b[i].description);
        assert_eq!(a[i].fallback_identifiers, b[i].fallback_identifiers);
    }
}

#[test]
fn duplicate_formula_parsed_once() {
    let entries = parse_manifest("brew \"x\"\nbrew \"x\"\n");
    assert_eq!(entries.len(), 1);
    assert_eq!(entries[0].kind, EntryKind::Formula);
    assert_eq!(entries[0].identifier, "x");
}

#[test]
fn comment_attaches_to_next_declaration() {
    let entries = parse_manifest("# CLI tool\nbrew \"jq\"\n");
    assert_eq!(entries.len(), 1);
    assert_eq!(entries[0].description, "CLI tool");
}

#[test]
fn blank_line_discards_comment() {
    let entries = parse_manifest("# CLI tool\n\nbrew \"jq\"\n");
    assert_eq!(entries.len(), 1);
    assert_eq!(entries[0].description, "Homebrew formula 'jq'");
}

#[test]
fn comment_lines_joined_with_spaces() {
    let entries = parse_manifest("# fast and\n# friendly\nbrew \"jq\"\n");
    assert_eq!(entries[0].description, "fast and friendly");
}

#[test]
fn empty_comment_line_keeps_pending() {
    let entries = parse_manifest("# note\n#\nbrew \"x\"\n");
    assert_eq!(entries[0].description, "note");
}

#[test]
fn mas_id_extracted() {
    let entries = parse_manifest("mas \"Foo\", id: 12345\n");
    assert_eq!(entries.len(), 1);
    assert_eq!(entries[0].kind, EntryKind::StoreApp);
    assert_eq!(entries[0].identifier, "12345");
    assert_eq!(entries[0].display_label, "Foo (App Store)");
    assert_eq!(entries[0].description, "Mac App Store app 'Foo' (id 12345)");
}

#[test]
fn mas_without_digits_skipped() {
    let entries = parse_manifest("mas \"Foo\", id: abc\n");
    assert_eq!(entries.len(), 0);
}

#[test]
fn cask_entry_parsed() {
    let entries = parse_manifest("cask \"firefox\"\n");
    assert_eq!(entries.len(), 1);
    assert_eq!(entries[0].kind, EntryKind::Cask);
    assert_eq!(entries[0].identifier, "firefox");
    assert_eq!(entries[0].display_label, "firefox (cask)");
    assert_eq!(entries[0].description, "Homebrew cask 'firefox'");
    assert!(entries[0].fallback_identifiers.is_empty());
}

#[test]
fn example_manifest_order() {
    let text = "# CLI tool\nbrew \"jq\"\ncask \"firefox\"\nmas \"Xcode\", id: 497799835\n";
    let entries = parse_manifest(text);
    assert_eq!(entries.len(), 3);
    assert_eq!(entries[0].identifier, "jq");
    assert_eq!(entries[0].kind, EntryKind::Formula);
    assert_eq!(entries[1].identifier, "firefox");
    assert_eq!(entries[1].kind, EntryKind::Cask);
    assert_eq!(entries[2].identifier, "497799835");
    assert_eq!(entries[2].kind, EntryKind::StoreApp);
}

#[test]
fn unrecognized_line_discards_comment() {
    let entries = parse_manifest("# note\ntap \"homebrew/core\"\nbrew \"jq\"\n");
    assert_eq!(entries.len(), 1);
    assert_eq!(entries[0].description, "Homebrew formula 'jq'");
}

#[test]
fn duplicate_consumes_pending_comment() {
    let entries = parse_manifest("brew \"x\"\n# hello\nbrew \"x\"\nbrew \"y\"\n");
    assert_eq!(entries.len(), 2);
    assert_eq!(entries[1].identifier, "y");
    assert_eq!(entries[1].description, "Homebrew formula 'y'");
}

#[test]
fn same_name_formula_and_cask_both_kept() {
    let entries = parse_manifest("brew \"x\"\ncask \"x\"\n");
    assert_eq!(entries.len(), 2);
    assert_eq!(entries[0].kind, EntryKind::Formula);
    assert_eq!(entries[1].kind, EntryKind::Cask);
}

#[test]
fn parse_entries_empty_manifest_fails() {
    match parse_entries("# only a comment\n\n") {
        Err(m) => assert_eq!(m, "Brewfile did not contain any brew/cask/mas entries"),
        Ok(_) => panic!("an entryless manifest must be rejected"),
    }
}

#[test]
fn parse_entries_nonempty_succeeds() {
    match parse_entries("brew \"jq\"\n") {
        Ok(v) => assert_eq!(v.len(), 1),
        Err(_) => panic!("a manifest with an entry must parse"),
    }
}

#[test]
fn quoted_name_is_first_quoted_substring() {
    let entries = parse_manifest("brew \"first\" # trailing \"second\"\n");
    assert_eq!(entries.len(), 1);
    assert_eq!(entries[0].identifier, "first");
}
