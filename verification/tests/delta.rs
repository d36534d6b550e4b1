use git_protocol::delta::GitDeltaManifestEntry;
use git_protocol::delta::ObjectDelta;
use git_protocol::delta::ObjectEntry;
use git_protocol::delta::delta_base;
use git_protocol::delta::delta_below_threshold;
use git_protocol::hash::ChangesetId;
use git_protocol::hash::GitObjectId;
use git_protocol::hash::ObjectKind;
use git_protocol::hash::RichGitObjectId;
use git_protocol::types::DeltaInclusion;
use git_protocol::types::Ratio;

fn delta_of(base: u8, compressed: u64) -> ObjectDelta {
    ObjectDelta {
        origin: ChangesetId::new([base; 32]),
        base_oid: GitObjectId::new([base; 20]),
        instructions_chunk_count: 1,
        instructions_uncompressed_size: compressed * 2,
        instructions_compressed_size: compressed,
    }
}

fn entry_of(size: u64, deltas: Vec<ObjectDelta>) -> GitDeltaManifestEntry {
    GitDeltaManifestEntry {
        full: ObjectEntry { oid: GitObjectId::new([0xEE; 20]), size, kind: ObjectKind::Blob },
        deltas,
    }
}

fn including(numerator: u64, denominator: u64) -> DeltaInclusion {
    DeltaInclusion::Include { inclusion_threshold: Ratio { numerator, denominator } }
}

#[test]
fn delta_is_below_threshold_only_if_strictly_smaller() {
    let half = Ratio { numerator: 1, denominator: 2 };
    let entry = entry_of(10, vec![]);
    assert!(delta_below_threshold(&delta_of(1, 4), &entry, half));
    assert!(!delta_below_threshold(&delta_of(1, 5), &entry, half));
    assert!(!delta_below_threshold(&delta_of(1, 6), &entry, half));
    assert!(delta_below_threshold(&delta_of(1, 0), &entry, half));
}

#[test]
fn threshold_of_one_admits_every_delta_smaller_than_the_object() {
    let one = Ratio { numerator: 1, denominator: 1 };
    let entry = entry_of(100, vec![]);
    assert!(delta_below_threshold(&delta_of(1, 99), &entry, one));
    assert!(!delta_below_threshold(&delta_of(1, 100), &entry, one));
}

#[test]
fn threshold_is_taken_without_rounding() {
    let third = Ratio { numerator: 1, denominator: 3 };
    // 10 / 3 is 3.33..: 3 is below, 4 is not
    let entry = entry_of(10, vec![]);
    assert!(delta_below_threshold(&delta_of(1, 3), &entry, third));
    assert!(!delta_below_threshold(&delta_of(1, 4), &entry, third));
    // 9 / 3 is 3: 3 is not below
    let entry = entry_of(9, vec![]);
    assert!(!delta_below_threshold(&delta_of(1, 3), &entry, third));
    assert!(delta_below_threshold(&delta_of(1, 2), &entry, third));
}

#[test]
fn threshold_of_largest_sizes_does_not_overflow() {
    let entry = entry_of(u64::MAX, vec![]);
    let one = Ratio { numerator: u64::MAX, denominator: u64::MAX };
    assert!(delta_below_threshold(&delta_of(1, u64::MAX - 1), &entry, one));
    assert!(!delta_below_threshold(&delta_of(1, u64::MAX), &entry, one));
}

#[test]
fn empty_object_has_no_delta_below_threshold() {
    let entry = entry_of(0, vec![]);
    assert!(!delta_below_threshold(&delta_of(1, 0), &entry, Ratio { numerator: 1, denominator: 1 }));
}

#[test]
fn standard_inclusion_is_three_fifths() {
    assert_eq!(DeltaInclusion::standard(), including(3, 5));
    let mut entry = entry_of(10, vec![delta_of(1, 5)]);
    assert_eq!(delta_base(&mut entry, DeltaInclusion::standard()), Some(delta_of(1, 5)));
    let mut entry = entry_of(10, vec![delta_of(1, 6)]);
    assert_eq!(delta_base(&mut entry, DeltaInclusion::standard()), None);
}

#[test]
fn delta_base_takes_the_smallest_delta() {
    let mut entry = entry_of(100, vec![delta_of(1, 30), delta_of(2, 10), delta_of(3, 20)]);
    assert_eq!(delta_base(&mut entry, including(1, 2)), Some(delta_of(2, 10)));
}

#[test]
fn delta_base_takes_the_first_of_equally_small_deltas() {
    let mut entry = entry_of(
        100,
        vec![delta_of(1, 30), delta_of(2, 10), delta_of(3, 10), delta_of(4, 10)],
    );
    assert_eq!(delta_base(&mut entry, including(1, 2)), Some(delta_of(2, 10)));
}

#[test]
fn delta_base_sorts_the_deltas_by_compressed_size() {
    let mut entry = entry_of(
        100,
        vec![delta_of(1, 30), delta_of(2, 10), delta_of(3, 20), delta_of(4, 10), delta_of(5, 5)],
    );
    let chosen = delta_base(&mut entry, including(1, 2));
    assert_eq!(chosen, Some(delta_of(5, 5)));
    assert_eq!(
        entry.deltas,
        vec![delta_of(5, 5), delta_of(2, 10), delta_of(4, 10), delta_of(3, 20), delta_of(1, 30)]
    );
    assert_eq!(entry.full, entry_of(100, vec![]).full);
}

#[test]
fn delta_base_is_none_where_the_smallest_is_not_below_threshold() {
    let mut entry = entry_of(100, vec![delta_of(1, 80), delta_of(2, 50), delta_of(3, 60)]);
    assert_eq!(delta_base(&mut entry, including(1, 2)), None);
    assert_eq!(entry.deltas, vec![delta_of(2, 50), delta_of(3, 60), delta_of(1, 80)]);
}

#[test]
fn delta_base_is_none_where_deltas_are_excluded() {
    let deltas = vec![delta_of(1, 30), delta_of(2, 10)];
    let mut entry = entry_of(100, deltas.clone());
    assert_eq!(delta_base(&mut entry, DeltaInclusion::Exclude), None);
    assert_eq!(entry.deltas, deltas);
}

#[test]
fn delta_base_is_none_where_there_is_no_delta() {
    let mut entry = entry_of(100, vec![]);
    assert_eq!(delta_base(&mut entry, including(1, 1)), None);
    assert!(entry.deltas.is_empty());
}

#[test]
fn full_object_as_rich_id() {
    let full = ObjectEntry { oid: GitObjectId::new([9; 20]), size: 77, kind: ObjectKind::Tree };
    assert_eq!(
        full.as_rich_git_sha1(),
        RichGitObjectId::new(GitObjectId::new([9; 20]), ObjectKind::Tree, 77)
    );
}
