use conventional_commits::parse_commit_msg;

fn assert_plain(input: &str) {
    let d = parse_commit_msg(input);
    assert_eq!(d.msg(), input);
    assert!(d.tag().is_none());
    assert!(d.scope().is_none());
    assert!(!d.is_breaking());
    assert!(!d.is_conventional());
}

#[test]
fn fallback_keeps_whole_input() {
    assert_plain("");
    assert_plain("lorem ipsum");
    assert_plain("feat!");
    assert_plain("feat!x");
    assert_plain("feat!:x");
    assert_plain("feat(design");
    assert_plain("feat()");
    assert_plain("feat(a)b");
    assert_plain("feat(a)!x");
    assert_plain("feat(a)!:x");
    assert_plain("123: lorem ipsum");
}

#[test]
fn reparsing_result_text_extracts_no_spurious_tag() {
    let d = parse_commit_msg("feat: lorem ipsum");
    assert_eq!(d.tag(), Some("feat"));
    let again = parse_commit_msg(d.msg());
    assert!(again.tag().is_none());
    assert_eq!(again.msg(), "lorem ipsum");
}

#[test]
fn reparsing_extracts_only_literal_tags() {
    let d = parse_commit_msg("chore(ui)!: fix: everything");
    assert_eq!(d.msg(), "fix: everything");
    // "fix" stands literally at the start of the text, so re-parsing may
    // extract it; it is not spurious.
    let again = parse_commit_msg(d.msg());
    assert_eq!(again.tag(), Some("fix"));
    assert_eq!(again.msg(), "everything");
}

#[test]
fn separator_requires_whitespace() {
    assert_plain("feat:lorem");
}

#[test]
fn separator_accepts_any_whitespace_character() {
    let d = parse_commit_msg("feat:\tlorem");
    assert_eq!(d.tag(), Some("feat"));
    assert_eq!(d.msg(), "lorem");
    let d = parse_commit_msg("feat:\nlorem");
    assert_eq!(d.tag(), Some("feat"));
    assert_eq!(d.msg(), "lorem");
}

#[test]
fn empty_scope_normalizes_to_absent() {
    let d = parse_commit_msg("feat(): lorem ipsum");
    assert_eq!(d.tag(), Some("feat"));
    assert!(d.scope().is_none());
    assert!(!d.is_breaking());
    assert_eq!(d.msg(), "lorem ipsum");
}

#[test]
fn scope_and_breaking_combine() {
    let d = parse_commit_msg("feat(design)!: lorem ipsum");
    assert_eq!(d.tag(), Some("feat"));
    assert_eq!(d.scope(), Some("design"));
    assert!(d.is_breaking());
    assert!(d.is_conventional());
    assert_eq!(d.msg(), "lorem ipsum");
}

#[test]
fn non_alphabetic_lead_in_degrades_fully() {
    assert_plain("(): lorem ipsum");
}

#[test]
fn bare_tag_without_separator_is_plain() {
    assert_plain("feat");
}

#[test]
fn trailing_colon_without_tag_match_falls_back_whole() {
    assert_plain("lorem ipsum:");
}

#[test]
fn body_is_preserved_verbatim() {
    let d = parse_commit_msg("fix: subject line\n\nbody text\nmore body");
    assert_eq!(d.tag(), Some("fix"));
    assert_eq!(d.msg(), "subject line\n\nbody text\nmore body");
}

#[test]
fn unicode_tag_and_scope() {
    let d = parse_commit_msg("f\u{e9}at(caf\u{e9}): lorem");
    assert_eq!(d.tag(), Some("f\u{e9}at"));
    assert_eq!(d.scope(), Some("caf\u{e9}"));
    assert_eq!(d.msg(), "lorem");
}
