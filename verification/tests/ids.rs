use git_protocol::command::aliases;
use git_protocol::command::doc;
use git_protocol::command::synopsis;
use git_protocol::hash::ChangesetId;
use git_protocol::hash::GitObjectId;
use git_protocol::hash::ObjectKind;
use git_protocol::hash::RichGitObjectId;
use git_protocol::provider::ObjectIdentifierType;
use git_protocol::provider::ObjectRead;
use git_protocol::provider::object_bytes;
use git_protocol::text::contains_name;
use git_protocol::text::has_any_prefix;
use git_protocol::text::join;
use git_protocol::text::starts_with;
use git_protocol::text::str_eq;

fn counting_oid() -> GitObjectId {
    let mut bytes = [0u8; 20];
    for (i, b) in bytes.iter_mut().enumerate() {
        *b = i as u8;
    }
    GitObjectId::new(bytes)
}

#[test]
fn object_id_hex_has_two_lowercase_digits_per_byte() {
    assert_eq!(counting_oid().to_hex(), "000102030405060708090a0b0c0d0e0f10111213");
    assert_eq!(
        GitObjectId::new([0xAB; 20]).to_hex(),
        "abababababababababababababababababababab"
    );
    assert_eq!(
        GitObjectId::new([0xF0; 20]).to_hex(),
        "f0f0f0f0f0f0f0f0f0f0f0f0f0f0f0f0f0f0f0f0"
    );
}

#[test]
fn object_id_hex_of_zero_and_of_all_ones() {
    assert_eq!(GitObjectId::new([0; 20]).to_hex(), "0".repeat(40));
    assert_eq!(GitObjectId::new([0xFF; 20]).to_hex(), "f".repeat(40));
}

#[test]
fn object_ids_are_equal_exactly_if_their_bytes_are() {
    let mut other = [7u8; 20];
    assert!(GitObjectId::new([7; 20]) == GitObjectId::new(other));
    other[19] = 8;
    assert!(GitObjectId::new([7; 20]) != GitObjectId::new(other));
    other[19] = 7;
    other[0] = 6;
    assert!(GitObjectId::new([7; 20]) != GitObjectId::new(other));
}

#[test]
fn changeset_ids_are_equal_exactly_if_their_bytes_are() {
    let mut other = [3u8; 32];
    assert!(ChangesetId::new([3; 32]) == ChangesetId::new(other));
    other[31] = 4;
    assert!(ChangesetId::new([3; 32]) != ChangesetId::new(other));
}

#[test]
fn rich_object_id_keeps_id_kind_and_size() {
    let rich = RichGitObjectId::new(counting_oid(), ObjectKind::Blob, 42);
    assert_eq!(rich.oid, counting_oid());
    assert_eq!(rich.kind, ObjectKind::Blob);
    assert_eq!(rich.size, 42);
    assert_eq!(rich.to_object_id(), counting_oid());
}

#[test]
fn object_identifier_gives_the_object_id_in_both_forms() {
    let rich = RichGitObjectId::new(counting_oid(), ObjectKind::Tree, 9);
    assert_eq!(ObjectIdentifierType::AllObjects(rich).to_object_id(), counting_oid());
    assert_eq!(
        ObjectIdentifierType::NonBlobObjects(GitObjectId::new([5; 20])).to_object_id(),
        GitObjectId::new([5; 20])
    );
}

#[test]
fn object_bytes_picks_the_reader_by_the_form_of_the_identifier() {
    let rich = RichGitObjectId::new(counting_oid(), ObjectKind::Blob, 9);
    assert_eq!(
        object_bytes(ObjectIdentifierType::AllObjects(rich)),
        ObjectRead::AnyObject(rich)
    );
    assert_eq!(
        object_bytes(ObjectIdentifierType::NonBlobObjects(counting_oid())),
        ObjectRead::NonBlobObject(counting_oid())
    );
}

#[test]
fn starts_with_tells_prefixes_from_other_strings() {
    assert!(starts_with("tags/v1", "tags/"));
    assert!(starts_with("tags/", "tags/"));
    assert!(starts_with("anything", ""));
    assert!(!starts_with("tag", "tags/"));
    assert!(!starts_with("heads/tags/v1", "tags/"));
    assert!(!starts_with("", "t"));
}

#[test]
fn str_eq_compares_characters() {
    assert!(str_eq("HEAD", "HEAD"));
    assert!(str_eq("", ""));
    assert!(!str_eq("HEAD", "HEAD2"));
    assert!(!str_eq("HEAD2", "HEAD"));
    assert!(!str_eq("HEAD", "head"));
}

#[test]
fn join_appends_the_tail_to_the_head() {
    assert_eq!(join("refs/", "heads/main"), "refs/heads/main");
    assert_eq!(join("", "x"), "x");
    assert_eq!(join("x", ""), "x");
}

#[test]
fn contains_name_finds_exact_names_only() {
    let names = vec!["heads/main".to_string(), "tags/v1".to_string()];
    assert!(contains_name(&names, "heads/main"));
    assert!(contains_name(&names, "tags/v1"));
    assert!(!contains_name(&names, "heads/mai"));
    assert!(!contains_name(&names, "heads/main2"));
    assert!(!contains_name(&Vec::new(), "heads/main"));
}

#[test]
fn has_any_prefix_tries_every_prefix() {
    let prefixes = vec!["refs/tags/".to_string(), "refs/heads/rel".to_string()];
    assert!(has_any_prefix(&prefixes, "refs/tags/v1"));
    assert!(has_any_prefix(&prefixes, "refs/heads/release"));
    assert!(!has_any_prefix(&prefixes, "refs/heads/main"));
    assert!(!has_any_prefix(&Vec::new(), "refs/heads/main"));
}

#[test]
fn command_is_named_and_described() {
    assert_eq!(aliases(), "debugscmstore");
    assert_eq!(doc(), "test file and tree fetching using scmstore");
    assert_eq!(synopsis(), None);
}
