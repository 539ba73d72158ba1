//! The export rewriter: a post-build pass over a compiled binary image.
//!
//! After the generated trampolines are compiled, the artifact's symbol and
//! string tables hold the external link names, each the original name, the
//! `_external` suffix, and a terminating zero byte. The rewriter finds every
//! occurrence of that marker — the suffix followed by the zero byte — and
//! overwrites the occurrence's first byte, the separator, with a zero byte.
//! The logical string is thereby truncated back to the original name while
//! every byte keeps its offset, so no other structure in the file moves.

use vstd::prelude::*;

use crate::names::spec_external_name;

verus! {

/// The marker byte pattern: the ASCII bytes of `_external` followed by a
/// terminating zero byte.
pub open spec fn marker() -> Seq<u8> {
    seq![95u8, 101u8, 120u8, 116u8, 101u8, 114u8, 110u8, 97u8, 108u8, 0u8]
}

/// Whether `needle` occurs in `h` starting at position `i`.
pub open spec fn matches_at(h: Seq<u8>, needle: Seq<u8>, i: int) -> bool {
    0 <= i && i + needle.len() <= h.len() && h.subrange(i, i + needle.len()) == needle
}

/// Whether the marker occurs in `h` starting at position `i`.
pub open spec fn is_marker_at(h: Seq<u8>, i: int) -> bool {
    matches_at(h, marker(), i)
}

/// The rewritten image: every byte where a marker occurrence starts becomes
/// zero; every other byte is unchanged. Length is preserved by construction.
pub open spec fn rewritten(h: Seq<u8>) -> Seq<u8> {
    Seq::new(h.len(), |i: int| if is_marker_at(h, i) { 0u8 } else { h[i] })
}

/// Relies on `memchr::memmem::find_iter`: it walks the haystack left to
/// right, yielding the start offset of each leftmost occurrence of the needle
/// and resuming the search right after the occurrence it reported. So the
/// offsets come back strictly ascending, every reported offset is an
/// occurrence, and every occurrence of the needle overlaps some reported one
/// (an occurrence disjoint from all reported ones would itself have been
/// reported).
#[verifier::external_body]
fn find_occurrences(haystack: &[u8], needle: &[u8]) -> (r: Vec<usize>)
    requires
        needle@.len() >= 1,
    ensures
        forall|k: int| 0 <= k < r@.len() ==> matches_at(haystack@, needle@, #[trigger] r@[k] as int),
        forall|k1: int, k2: int| 0 <= k1 < k2 < r@.len() ==> r@[k1] < r@[k2],
        forall|i: int|
            matches_at(haystack@, needle@, i) ==> exists|k: int|
                0 <= k < r@.len() && #[trigger] r@[k] <= i < r@[k] + needle@.len(),
{
    memchr::memmem::find_iter(haystack, needle).collect()
}

/// Two marker occurrences cannot overlap: the marker ends in its only zero
/// byte, so an occurrence starting inside another would put a zero byte where
/// the other occurrence has a nonzero one.
proof fn lemma_marker_no_overlap(h: Seq<u8>, i: int, j: int)
    requires
        is_marker_at(h, i),
        is_marker_at(h, j),
        i <= j < i + marker().len(),
    ensures
        i == j,
{
    if i < j {
        let t = i + 9 - j;
        assert(0 <= t < 9);
        assert(h.subrange(i, i + 10)[9] == marker()[9]);
        assert(h[i + 9] == 0);
        assert(h.subrange(j, j + 10)[t] == marker()[t]);
        assert(h[j + t] == marker()[t]);
        assert(marker()[t] != 0);
    }
}

/// Restores the original export names in a binary image, in place: the first
/// byte of every marker occurrence becomes zero, and nothing else changes.
pub fn rewrite_exports(image: &mut Vec<u8>)
    ensures
        final(image)@ == rewritten(old(image)@),
{
    let mut needle: Vec<u8> = Vec::new();
    needle.push(95);
    needle.push(101);
    needle.push(120);
    needle.push(116);
    needle.push(101);
    needle.push(114);
    needle.push(110);
    needle.push(97);
    needle.push(108);
    needle.push(0);
    proof {
        assert(needle@ =~= marker());
    }
    let offsets = find_occurrences(image.as_slice(), needle.as_slice());
    proof {
        assert forall|i: int| is_marker_at(old(image)@, i) implies exists|k: int|
            0 <= k < offsets@.len() && #[trigger] offsets@[k] == i by {
            let k = choose|k: int|
                0 <= k < offsets@.len() && #[trigger] offsets@[k] <= i < offsets@[k]
                    + marker().len();
            lemma_marker_no_overlap(old(image)@, offsets@[k] as int, i);
            assert(offsets@[k] == i);
        }
    }
    let mut k: usize = 0;
    while k < offsets.len()
        invariant
            k <= offsets@.len(),
            image@.len() == old(image)@.len(),
            forall|k0: int|
                0 <= k0 < offsets@.len() ==> is_marker_at(
                    old(image)@,
                    #[trigger] offsets@[k0] as int,
                ),
            forall|i: int|
                is_marker_at(old(image)@, i) ==> exists|k0: int|
                    0 <= k0 < offsets@.len() && #[trigger] offsets@[k0] == i,
            forall|i: int|
                0 <= i < image@.len() ==> image@[i] == (if (exists|j: int|
                    0 <= j < k && #[trigger] offsets@[j] == i) {
                    0u8
                } else {
                    old(image)@[i]
                }),
        decreases offsets@.len() - k,
    {
        let idx = offsets[k];
        assert(is_marker_at(old(image)@, idx as int));
        image[idx] = 0;
        proof {
            assert forall|i: int| 0 <= i < image@.len() implies image@[i] == (if (exists|j: int|
                0 <= j < k + 1 && #[trigger] offsets@[j] == i) {
                0u8
            } else {
                old(image)@[i]
            }) by {
                if i == idx {
                    assert(offsets@[k as int] == i);
                } else {
                    if exists|j: int| 0 <= j < k + 1 && #[trigger] offsets@[j] == i {
                        let j = choose|j: int| 0 <= j < k + 1 && #[trigger] offsets@[j] == i;
                        assert(j < k);
                    }
                }
            }
        }
        k += 1;
    }
    proof {
        assert forall|i: int| 0 <= i < image@.len() implies image@[i] == rewritten(old(image)@)[i]
            by {
            if exists|j: int| 0 <= j < offsets@.len() && #[trigger] offsets@[j] == i {
                let j = choose|j: int| 0 <= j < offsets@.len() && #[trigger] offsets@[j] == i;
                assert(is_marker_at(old(image)@, i));
            } else {
                assert(!is_marker_at(old(image)@, i));
            }
        }
        assert(image@ =~= rewritten(old(image)@));
    }
}

/// Law: a rewrite never changes the image's length — every byte keeps its
/// offset.
pub proof fn lemma_rewrite_preserves_length(h: Seq<u8>)
    ensures
        rewritten(h).len() == h.len(),
{
}

/// Law: an image with no marker occurrence is left byte-for-byte unchanged.
pub proof fn lemma_rewrite_absence(h: Seq<u8>)
    requires
        forall|i: int| !is_marker_at(h, i),
    ensures
        rewritten(h) == h,
{
    assert(rewritten(h) =~= h);
}

/// Law: the marker the rewriter searches for is exactly what the generator
/// plants — the suffix the symbol namer appends, as ASCII bytes, followed by
/// the terminating zero byte of a name in a string table.
pub proof fn lemma_marker_matches_external_suffix()
    ensures
        marker() == spec_external_name(Seq::empty()).map_values(|c: char| c as u8).push(0u8),
{
    reveal_strlit("_external");
    assert(spec_external_name(Seq::empty()) =~= "_external"@);
    assert(marker() =~= "_external"@.map_values(|c: char| c as u8).push(0u8));
}

} // verus!
