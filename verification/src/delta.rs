//! The delta chooser: whether an object of a Git delta manifest goes into the
//! pack as a delta, and as which.

use crate::hash::ChangesetId;
use crate::hash::GitObjectId;
use crate::hash::ObjectKind;
use crate::hash::RichGitObjectId;
use crate::types::DeltaInclusion;
use crate::types::Ratio;
use vstd::prelude::*;

verus! {

/// An object as a manifest describes it in full: id, size in bytes before
/// compression, and kind.
#[derive(Clone, Copy, Debug, PartialEq, Eq)]
pub struct ObjectEntry {
    pub oid: GitObjectId,
    pub size: u64,
    pub kind: ObjectKind,
}

impl ObjectEntry {
    /// The identifier of the object together with its kind and size.
    pub fn as_rich_git_sha1(&self) -> (rich: RichGitObjectId)
        ensures
            rich == self.spec_rich(),
    {
        RichGitObjectId { oid: self.oid, kind: self.kind, size: self.size }
    }

    /// The identifier of the object together with its kind and size.
    pub open spec fn spec_rich(&self) -> RichGitObjectId {
        RichGitObjectId { oid: self.oid, kind: self.kind, size: self.size }
    }
}

/// A delta that was computed ahead of time: instructions that rebuild an
/// object from the base object `base_oid`, stored in `instructions_chunk_count`
/// chunks under the changeset `origin`.
#[derive(Clone, Copy, Debug, PartialEq, Eq)]
pub struct ObjectDelta {
    pub origin: ChangesetId,
    pub base_oid: GitObjectId,
    pub instructions_chunk_count: u64,
    pub instructions_uncompressed_size: u64,
    pub instructions_compressed_size: u64,
}

/// One entry of a Git delta manifest: an object that a changeset introduces,
/// in full, and the deltas by which it can be sent instead.
#[derive(Clone, Debug, PartialEq, Eq)]
pub struct GitDeltaManifestEntry {
    pub full: ObjectEntry,
    pub deltas: Vec<ObjectDelta>,
}

/// Whether instructions of `compressed_size` bytes are smaller than
/// `full_size` times `threshold`, taken as numbers without rounding:
/// `compressed_size < full_size * numerator / denominator`.
pub open spec fn spec_below_threshold(
    compressed_size: u64,
    full_size: u64,
    threshold: Ratio,
) -> bool {
    compressed_size * threshold.denominator < full_size * threshold.numerator
}

/// Whether the compressed instructions of `delta` are smaller than the size
/// of the full object of `entry` times `inclusion_threshold`.
pub fn delta_below_threshold(
    delta: &ObjectDelta,
    entry: &GitDeltaManifestEntry,
    inclusion_threshold: Ratio,
) -> (r: bool)
    ensures
        r == spec_below_threshold(
            delta.instructions_compressed_size,
            entry.full.size,
            inclusion_threshold,
        ),
{
    let compressed: u128 = delta.instructions_compressed_size as u128;
    let denominator: u128 = inclusion_threshold.denominator as u128;
    let full: u128 = entry.full.size as u128;
    let numerator: u128 = inclusion_threshold.numerator as u128;
    assert(compressed * denominator <= 0xffff_ffff_ffff_ffff * 0xffff_ffff_ffff_ffff)
        by (nonlinear_arith)
        requires
            compressed <= 0xffff_ffff_ffff_ffff,
            denominator <= 0xffff_ffff_ffff_ffff,
    ;
    assert(full * numerator <= 0xffff_ffff_ffff_ffff * 0xffff_ffff_ffff_ffff) by (nonlinear_arith)
        requires
            full <= 0xffff_ffff_ffff_ffff,
            numerator <= 0xffff_ffff_ffff_ffff,
    ;
    compressed * denominator < full * numerator
}

/// The index of the delta with the smallest compressed instructions; of
/// several that are smallest, the first. Zero where there is no delta.
pub open spec fn smallest_index(deltas: Seq<ObjectDelta>) -> int
    decreases deltas.len(),
{
    if deltas.len() <= 1 {
        0
    } else {
        let k = smallest_index(deltas.drop_last());
        if deltas.last().instructions_compressed_size < deltas[k].instructions_compressed_size {
            deltas.len() - 1
        } else {
            k
        }
    }
}

/// `smallest_index` is the index of a delta, no delta is smaller than the one
/// it picks, and every delta before that one is larger.
pub proof fn lemma_smallest_index(deltas: Seq<ObjectDelta>)
    requires
        deltas.len() > 0,
    ensures
        0 <= smallest_index(deltas) < deltas.len(),
        forall|j: int|
            0 <= j < deltas.len() ==> deltas[smallest_index(deltas)].instructions_compressed_size
                <= (#[trigger] deltas[j]).instructions_compressed_size,
        forall|j: int|
            0 <= j < smallest_index(deltas) ==> deltas[smallest_index(
                deltas,
            )].instructions_compressed_size < (#[trigger] deltas[j]).instructions_compressed_size,
    decreases deltas.len(),
{
    if deltas.len() > 1 {
        let front = deltas.drop_last();
        lemma_smallest_index(front);
        let k = smallest_index(front);
        assert(front[k] == deltas[k]);
        assert forall|j: int| 0 <= j < deltas.len() implies deltas[smallest_index(
            deltas,
        )].instructions_compressed_size <= (#[trigger] deltas[j]).instructions_compressed_size by {
            if j < front.len() {
                assert(front[j] == deltas[j]);
            }
        }
        assert forall|j: int| 0 <= j < smallest_index(deltas) implies deltas[smallest_index(
            deltas,
        )].instructions_compressed_size < (#[trigger] deltas[j]).instructions_compressed_size by {
            assert(front[j] == deltas[j]);
        }
    }
}

/// The delta by which the object of `entry` is sent under `inclusion`, if it
/// is sent as a delta: where deltas are included, the smallest of the entry's
/// deltas by compressed size, the first of several, provided that it is below
/// the threshold.
pub open spec fn spec_delta_base(
    full: ObjectEntry,
    deltas: Seq<ObjectDelta>,
    inclusion: DeltaInclusion,
) -> Option<ObjectDelta> {
    match inclusion {
        DeltaInclusion::Exclude => None,
        DeltaInclusion::Include { inclusion_threshold } => {
            if deltas.len() == 0 {
                None
            } else {
                let smallest = deltas[smallest_index(deltas)];
                if spec_below_threshold(
                    smallest.instructions_compressed_size,
                    full.size,
                    inclusion_threshold,
                ) {
                    Some(smallest)
                } else {
                    None
                }
            }
        },
    }
}

/// Whether `deltas` are in ascending order of compressed size.
pub open spec fn sorted_by_compressed_size(deltas: Seq<ObjectDelta>) -> bool {
    forall|i: int, j: int|
        0 <= i <= j < deltas.len() ==> (#[trigger] deltas[i]).instructions_compressed_size <= (
        #[trigger] deltas[j]).instructions_compressed_size
}

/// Those of `deltas` whose compressed instructions have the size `size`, in
/// the order of `deltas`.
pub open spec fn deltas_of_size(deltas: Seq<ObjectDelta>, size: u64) -> Seq<ObjectDelta>
    decreases deltas.len(),
{
    if deltas.len() == 0 {
        Seq::empty()
    } else {
        let rest = deltas_of_size(deltas.drop_last(), size);
        if deltas.last().instructions_compressed_size == size {
            rest.push(deltas.last())
        } else {
            rest
        }
    }
}

/// Whether `after` holds the deltas of each size in the order in which
/// `before` holds them.
pub open spec fn same_order_within_sizes(before: Seq<ObjectDelta>, after: Seq<ObjectDelta>) -> bool {
    forall|size: u64| #[trigger] deltas_of_size(after, size) == deltas_of_size(before, size)
}

/// The deltas of a size among two sequences, one after the other, are those
/// among the first followed by those among the second.
proof fn lemma_deltas_of_size_add(a: Seq<ObjectDelta>, b: Seq<ObjectDelta>, size: u64)
    ensures
        deltas_of_size(a + b, size) == deltas_of_size(a, size) + deltas_of_size(b, size),
    decreases b.len(),
{
    if b.len() == 0 {
        assert(a + b =~= a);
        assert(deltas_of_size(a, size) + deltas_of_size(b, size) =~= deltas_of_size(a, size));
    } else {
        lemma_deltas_of_size_add(a, b.drop_last(), size);
        assert((a + b).drop_last() =~= a + b.drop_last());
        assert((a + b).last() == b.last());
        assert(deltas_of_size(a + b, size) =~= deltas_of_size(a, size) + deltas_of_size(b, size));
    }
}

/// There is no delta of a size among deltas that are all larger.
proof fn lemma_deltas_of_size_none(deltas: Seq<ObjectDelta>, size: u64)
    requires
        forall|j: int|
            0 <= j < deltas.len() ==> (#[trigger] deltas[j]).instructions_compressed_size > size,
    ensures
        deltas_of_size(deltas, size) == Seq::<ObjectDelta>::empty(),
    decreases deltas.len(),
{
    if deltas.len() > 0 {
        assert forall|j: int| 0 <= j < deltas.drop_last().len() implies (
        #[trigger] deltas.drop_last()[j]).instructions_compressed_size > size by {
            assert(deltas.drop_last()[j] == deltas[j]);
        }
        lemma_deltas_of_size_none(deltas.drop_last(), size);
        assert(deltas[deltas.len() - 1].instructions_compressed_size > size);
    }
}

/// A delta that is put behind all deltas that are not larger than it comes
/// last among those of its size, and the others stay as they were.
proof fn lemma_insert_keeps_order(sorted: Seq<ObjectDelta>, at: int, d: ObjectDelta, size: u64)
    requires
        0 <= at <= sorted.len(),
        sorted_by_compressed_size(sorted),
        at < sorted.len() ==> sorted[at].instructions_compressed_size
            > d.instructions_compressed_size,
    ensures
        deltas_of_size(sorted.insert(at, d), size) == if d.instructions_compressed_size == size {
            deltas_of_size(sorted, size).push(d)
        } else {
            deltas_of_size(sorted, size)
        },
{
    let front = sorted.take(at);
    let back = sorted.skip(at);
    let one = seq![d];
    assert(sorted.insert(at, d) =~= front + one + back);
    assert(sorted =~= front + back);
    lemma_deltas_of_size_add(front + one, back, size);
    lemma_deltas_of_size_add(front, one, size);
    lemma_deltas_of_size_add(front, back, size);
    assert(one.drop_last() =~= Seq::<ObjectDelta>::empty());
    assert(deltas_of_size(one.drop_last(), size) =~= Seq::<ObjectDelta>::empty());
    if d.instructions_compressed_size == size {
        assert forall|j: int| 0 <= j < back.len() implies (
        #[trigger] back[j]).instructions_compressed_size > size by {
            assert(back[j] == sorted[at + j]);
            assert(sorted[at].instructions_compressed_size <= sorted[at
                + j].instructions_compressed_size);
        }
        lemma_deltas_of_size_none(back, size);
        assert(deltas_of_size(one, size) =~= seq![d]);
        assert(deltas_of_size(front, size) + seq![d] + Seq::<ObjectDelta>::empty()
            =~= (deltas_of_size(front, size) + Seq::<ObjectDelta>::empty()).push(d));
    } else {
        assert(deltas_of_size(one, size) =~= Seq::<ObjectDelta>::empty());
        assert(deltas_of_size(front, size) + Seq::<ObjectDelta>::empty() + deltas_of_size(
            back,
            size,
        ) =~= deltas_of_size(front, size) + deltas_of_size(back, size));
    }
}

/// Inserting an element adds it to the multiset of the sequence.
proof fn lemma_insert_to_multiset(s: Seq<ObjectDelta>, i: int, d: ObjectDelta)
    requires
        0 <= i <= s.len(),
    ensures
        s.insert(i, d).to_multiset() == s.to_multiset().insert(d),
{
    broadcast use vstd::seq_lib::group_to_multiset_ensures;

    let grown = s.insert(i, d);
    assert(grown[i] == d);
    assert(grown.remove(i) =~= s);
    assert(grown.contains(d));
    assert(grown.to_multiset().remove(d).insert(d) =~= grown.to_multiset());
}

/// Sorts `deltas` by compressed size, smallest first; deltas of the same
/// size stay in the order in which they stood.
fn sort_deltas(deltas: &mut Vec<ObjectDelta>)
    ensures
        sorted_by_compressed_size(final(deltas)@),
        same_order_within_sizes(old(deltas)@, final(deltas)@),
        final(deltas)@.to_multiset() == old(deltas)@.to_multiset(),
        final(deltas)@.len() == old(deltas)@.len(),
{
    let mut sorted: Vec<ObjectDelta> = Vec::new();
    let mut i: usize = 0;
    proof {
        assert(deltas@.take(0) =~= sorted@);
    }
    while i < deltas.len()
        invariant
            i <= deltas.len(),
            *deltas == *old(deltas),
            sorted_by_compressed_size(sorted@),
            same_order_within_sizes(deltas@.take(i as int), sorted@),
            sorted@.to_multiset() == deltas@.take(i as int).to_multiset(),
            sorted@.len() == i,
        decreases deltas.len() - i,
    {
        let d = deltas[i];
        let mut at: usize = 0;
        while at < sorted.len() && sorted[at].instructions_compressed_size
            <= d.instructions_compressed_size
            invariant
                at <= sorted.len(),
                forall|j: int|
                    0 <= j < at ==> (#[trigger] sorted@[j]).instructions_compressed_size
                        <= d.instructions_compressed_size,
            decreases sorted.len() - at,
        {
            at += 1;
        }
        proof {
            broadcast use vstd::seq_lib::group_to_multiset_ensures;

            lemma_insert_to_multiset(sorted@, at as int, d);
            assert(deltas@.take(i as int + 1) =~= deltas@.take(i as int).push(d));
            let grown = sorted@.insert(at as int, d);
            assert forall|size: u64| #[trigger]
                deltas_of_size(grown, size) == deltas_of_size(
                    deltas@.take(i as int + 1),
                    size,
                ) by {
                lemma_insert_keeps_order(sorted@, at as int, d, size);
                assert(deltas@.take(i as int + 1).drop_last() =~= deltas@.take(i as int));
                assert(deltas_of_size(sorted@, size) == deltas_of_size(
                    deltas@.take(i as int),
                    size,
                ));
            }
            assert forall|a: int, b: int| 0 <= a <= b < grown.len() implies (
            #[trigger] grown[a]).instructions_compressed_size <= (
            #[trigger] grown[b]).instructions_compressed_size by {
                if a < at && b > at {
                    assert(grown[a] == sorted@[a]);
                    assert(grown[b] == sorted@[b - 1]);
                } else if a < at && b < at {
                    assert(grown[a] == sorted@[a]);
                    assert(grown[b] == sorted@[b]);
                } else if a > at {
                    assert(grown[a] == sorted@[a - 1]);
                    assert(grown[b] == sorted@[b - 1]);
                } else if a == at && b > at {
                    assert(grown[b] == sorted@[b - 1]);
                    assert(sorted@[at as int].instructions_compressed_size <= sorted@[b
                        - 1].instructions_compressed_size);
                } else if a < at && b == at {
                    assert(grown[a] == sorted@[a]);
                }
            }
        }
        sorted.insert(at, d);
        i += 1;
    }
    proof {
        assert(deltas@.take(i as int) =~= deltas@);
    }
    *deltas = sorted;
}

/// The delta by which the object of `entry` goes into the pack, or `None`
/// where it goes in full.
///
/// Where deltas are included, the deltas of the entry are put in ascending
/// order of compressed size, those of the same size in the order in which
/// they stood; and the smallest of them, the first of several as they stood,
/// is taken if its compressed instructions are smaller than the full
/// object's size times the threshold. Where deltas are excluded the entry
/// stays as it is.
pub fn delta_base(entry: &mut GitDeltaManifestEntry, delta_inclusion: DeltaInclusion) -> (r: Option<
    ObjectDelta,
>)
    ensures
        r == spec_delta_base(old(entry).full, old(entry).deltas@, delta_inclusion),
        final(entry).full == old(entry).full,
        same_order_within_sizes(old(entry).deltas@, final(entry).deltas@),
        final(entry).deltas@.to_multiset() == old(entry).deltas@.to_multiset(),
        final(entry).deltas@.len() == old(entry).deltas@.len(),
        delta_inclusion is Include ==> sorted_by_compressed_size(final(entry).deltas@),
        delta_inclusion is Exclude ==> final(entry).deltas@ == old(entry).deltas@,
{
    match delta_inclusion {
        DeltaInclusion::Include { inclusion_threshold } => {
            if entry.deltas.len() == 0 {
                proof {
                    assert(sorted_by_compressed_size(entry.deltas@));
                }
                return None;
            }
            let mut smallest: usize = 0;
            let mut i: usize = 1;
            proof {
                assert(entry.deltas@.take(1).drop_last().len() == 0);
            }
            while i < entry.deltas.len()
                invariant
                    1 <= i <= entry.deltas.len(),
                    *entry == *old(entry),
                    smallest < i,
                    smallest == smallest_index(entry.deltas@.take(i as int)),
                decreases entry.deltas.len() - i,
            {
                proof {
                    let grown = entry.deltas@.take(i as int + 1);
                    assert(grown.drop_last() =~= entry.deltas@.take(i as int));
                    assert(grown.last() == entry.deltas@[i as int]);
                    assert(grown[smallest as int] == entry.deltas@[smallest as int]);
                }
                if entry.deltas[i].instructions_compressed_size
                    < entry.deltas[smallest].instructions_compressed_size {
                    smallest = i;
                }
                i += 1;
            }
            proof {
                assert(entry.deltas@.take(i as int) =~= entry.deltas@);
            }
            let candidate = entry.deltas[smallest];
            let below = delta_below_threshold(&candidate, entry, inclusion_threshold);
            sort_deltas(&mut entry.deltas);
            if below {
                Some(candidate)
            } else {
                None
            }
        },
        // No delta can be used where the request forbids them
        DeltaInclusion::Exclude => None,
    }
}

} // verus!
