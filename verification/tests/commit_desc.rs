use conventional_commits::parse_commit_msg;
use conventional_commits::CommitDesc;
use conventional_commits::CommitId;

fn sample_id(seed: u8) -> CommitId {
    let mut bytes = [0u8; 20];
    let mut i: usize = 0;
    while i < 20 {
        bytes[i] = seed.wrapping_add(i as u8);
        i += 1;
    }
    CommitId { bytes }
}

#[test]
fn new_has_no_author() {
    let msg = parse_commit_msg("feat: lorem ipsum");
    let desc = CommitDesc::new(sample_id(7), msg);
    assert_eq!(desc.id(), sample_id(7));
    assert!(desc.author().is_none());
    assert_eq!(desc.message().tag(), Some("feat"));
    assert_eq!(desc.message().msg(), "lorem ipsum");
}

#[test]
fn with_author_keeps_the_rest() {
    let msg = parse_commit_msg("fix(core)!: lorem");
    let desc = CommitDesc::new(sample_id(3), msg).with_author("Ada".to_string());
    assert_eq!(desc.author(), Some("Ada"));
    assert_eq!(desc.id(), sample_id(3));
    assert_eq!(desc.message().tag(), Some("fix"));
    assert_eq!(desc.message().scope(), Some("core"));
    assert!(desc.message().is_breaking());
}

#[test]
fn commit_ids_compare_by_bytes() {
    assert_eq!(sample_id(5), sample_id(5));
    assert_ne!(sample_id(5), sample_id(6));
}
