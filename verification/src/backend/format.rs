//! Format negotiation: which pixel formats a swapchain may be created with.

use vstd::prelude::*;

use crate::lemmas::{
    lemma_filter_all, lemma_filter_keeps_distinct, lemma_filter_subset, lemma_filter_take_step,
};

verus! {

/// The modifier that stands for "no explicit modifier": the driver picks the
/// layout itself.
pub const MODIFIER_INVALID: u64 = 0x00ff_ffff_ffff_ffff;

/// Intel Y-tiling with colour-control-surface compression.
pub const MODIFIER_I915_Y_TILED_CCS: u64 = 0x0100_0000_0000_0004;

/// Intel Y-tiling with gen12 render compression.
pub const MODIFIER_I915_Y_TILED_GEN12_RC_CCS: u64 = 0x0100_0000_0000_0006;

/// Intel Y-tiling with gen12 media compression.
pub const MODIFIER_I915_Y_TILED_GEN12_MC_CCS: u64 = 0x0100_0000_0000_0007;

/// A pixel encoding (a fourcc code) with a memory-layout modifier.
#[derive(Clone, Copy, Debug, PartialEq, Eq, Hash, Structural)]
pub struct Format {
    pub code: u32,
    pub modifier: u64,
}

/// The compression layouts that are unreliable for scanout.
pub open spec fn is_denylisted(modifier: u64) -> bool {
    modifier == MODIFIER_I915_Y_TILED_CCS || modifier == MODIFIER_I915_Y_TILED_GEN12_RC_CCS
        || modifier == MODIFIER_I915_Y_TILED_GEN12_MC_CCS
}

/// A format that may be offered to the allocator.
pub open spec fn is_usable(format: Format) -> bool {
    !is_denylisted(format.modifier)
}

/// A format that leaves the layout to the driver.
pub open spec fn is_implicit(format: Format) -> bool {
    format.modifier == MODIFIER_INVALID
}

/// The candidate list of a capability set: its usable entries, in order.
pub open spec fn candidate_formats(capabilities: Seq<Format>) -> Seq<Format> {
    capabilities.filter(|f: Format| is_usable(f))
}

/// The fallback subset of a candidate list: its implicit entries, in order.
pub open spec fn implicit_formats(candidates: Seq<Format>) -> Seq<Format> {
    candidates.filter(|f: Format| is_implicit(f))
}

/// The fourcc codes of a list of formats, entry by entry.
pub open spec fn format_codes(formats: Seq<Format>) -> Seq<u32> {
    formats.map_values(|f: Format| f.code)
}

/// Whether `modifier` is on the denylist.
pub fn denylisted(modifier: u64) -> (b: bool)
    ensures
        b == is_denylisted(modifier),
{
    modifier == MODIFIER_I915_Y_TILED_CCS || modifier == MODIFIER_I915_Y_TILED_GEN12_RC_CCS
        || modifier == MODIFIER_I915_Y_TILED_GEN12_MC_CCS
}

/// The outcome of format negotiation for one rendering context.
#[derive(Clone, Debug, PartialEq, Eq)]
pub struct FormatCandidates {
    /// The candidate list.
    pub formats: Vec<Format>,
    /// The entries of `formats` without an explicit modifier.
    pub implicit: Vec<Format>,
    /// How many advertised entries were dropped.
    pub filtered: usize,
}

impl FormatCandidates {
    /// `implicit` is the fallback subset of `formats`, and `formats` holds
    /// no denylisted entry.
    pub open spec fn wf(&self) -> bool {
        &&& self.implicit@ == implicit_formats(self.formats@)
        &&& forall|i: int| 0 <= i < self.formats@.len() ==> is_usable(#[trigger] self.formats@[i])
    }

    /// Whether these are the candidates of `capabilities`.
    pub open spec fn negotiated_from(&self, capabilities: Seq<Format>) -> bool {
        &&& self.formats@ == candidate_formats(capabilities)
        &&& self.implicit@ == implicit_formats(self.formats@)
        &&& self.filtered == capabilities.len() - self.formats@.len()
    }
}

/// Reduces the advertised capability set to the candidate list and its
/// fallback subset.
pub fn negotiate_formats(capabilities: &Vec<Format>) -> (r: FormatCandidates)
    ensures
        r.negotiated_from(capabilities@),
        r.wf(),
{
    let mut formats: Vec<Format> = Vec::new();
    let mut implicit: Vec<Format> = Vec::new();
    let mut i: usize = 0;
    while i < capabilities.len()
        invariant
            i <= capabilities.len(),
            formats@ == candidate_formats(capabilities@.take(i as int)),
            implicit@ == implicit_formats(formats@),
            formats@.len() <= i,
            forall|k: int| 0 <= k < formats@.len() ==> is_usable(#[trigger] formats@[k]),
        decreases capabilities.len() - i,
    {
        let f: Format = capabilities[i];
        proof {
            lemma_filter_take_step(capabilities@, i as int, |f: Format| is_usable(f));
        }
        if !denylisted(f.modifier) {
            proof {
                let next = formats@.push(f);
                assert(next.take(formats@.len() as int) =~= formats@);
                assert(next.take(next.len() as int) =~= next);
                lemma_filter_take_step(next, formats@.len() as int, |f: Format| is_implicit(f));
            }
            formats.push(f);
            if f.modifier == MODIFIER_INVALID {
                implicit.push(f);
            }
        }
        i += 1;
    }
    proof {
        assert(capabilities@.take(capabilities@.len() as int) =~= capabilities@);
    }
    let filtered: usize = capabilities.len() - formats.len();
    FormatCandidates { formats, implicit, filtered }
}

/// The fourcc codes of `formats`, entry by entry.
pub fn codes_of(formats: &Vec<Format>) -> (codes: Vec<u32>)
    ensures
        codes@ == format_codes(formats@),
{
    let mut codes: Vec<u32> = Vec::new();
    let mut i: usize = 0;
    while i < formats.len()
        invariant
            i <= formats.len(),
            codes@.len() == i,
            forall|k: int| 0 <= k < i ==> codes@[k] == formats@[k].code,
        decreases formats.len() - i,
    {
        codes.push(formats[i].code);
        i += 1;
    }
    codes
}

/// The candidate list holds no denylisted entry.
pub proof fn lemma_candidates_exclude_denylisted(capabilities: Seq<Format>)
    ensures
        forall|k: int|
            0 <= k < candidate_formats(capabilities).len() ==> !is_denylisted(
                #[trigger] candidate_formats(capabilities)[k].modifier,
            ),
{
    let out = candidate_formats(capabilities);
    assert forall|k: int| 0 <= k < out.len() implies !is_denylisted(#[trigger] out[k].modifier) by {
        capabilities.lemma_filter_pred(|f: Format| is_usable(f), k);
    }
}

/// Every usable entry of the capability set is a candidate.
pub proof fn lemma_candidates_keep_usable(capabilities: Seq<Format>, i: int)
    requires
        0 <= i < capabilities.len(),
        is_usable(capabilities[i]),
    ensures
        candidate_formats(capabilities).contains(capabilities[i]),
{
    capabilities.lemma_filter_contains(|f: Format| is_usable(f), i);
}

/// Every candidate is an entry of the capability set.
pub proof fn lemma_candidates_are_advertised(capabilities: Seq<Format>)
    ensures
        forall|k: int|
            0 <= k < candidate_formats(capabilities).len() ==> capabilities.contains(
                #[trigger] candidate_formats(capabilities)[k],
            ),
        candidate_formats(capabilities).len() <= capabilities.len(),
{
    lemma_filter_subset(capabilities, |f: Format| is_usable(f));
    capabilities.lemma_filter_len(|f: Format| is_usable(f));
}

/// Negotiation works entry by entry and keeps the order: the candidates of
/// two capability lists joined are the candidates of the first followed by
/// those of the second, and a single entry is kept exactly when it is usable.
pub proof fn lemma_candidates_preserve_order(a: Seq<Format>, b: Seq<Format>, f: Format)
    ensures
        candidate_formats(a + b) == candidate_formats(a) + candidate_formats(b),
        candidate_formats(seq![f]) == if is_usable(f) {
            seq![f]
        } else {
            Seq::<Format>::empty()
        },
        candidate_formats(Seq::<Format>::empty()) == Seq::<Format>::empty(),
{
    Seq::filter_distributes_over_add(a, b, |f: Format| is_usable(f));
    reveal(Seq::filter);
    let one = seq![f];
    assert(one.drop_last() =~= Seq::<Format>::empty());
    assert(one.drop_last().filter(|f: Format| is_usable(f)) =~= Seq::<Format>::empty());
    assert(one.last() == f);
    assert(candidate_formats(one) =~= if is_usable(f) {
        seq![f]
    } else {
        Seq::<Format>::empty()
    });
}

/// A capability set without denylisted entries is its own candidate list.
pub proof fn lemma_candidates_of_usable(capabilities: Seq<Format>)
    requires
        forall|i: int| 0 <= i < capabilities.len() ==> is_usable(#[trigger] capabilities[i]),
    ensures
        candidate_formats(capabilities) == capabilities,
{
    lemma_filter_all(capabilities, |f: Format| is_usable(f));
}

/// A capability set that lists no entry twice has a candidate list and a
/// fallback subset that list no entry twice.
pub proof fn lemma_candidates_stay_distinct(capabilities: Seq<Format>)
    requires
        capabilities.no_duplicates(),
    ensures
        candidate_formats(capabilities).no_duplicates(),
        implicit_formats(candidate_formats(capabilities)).no_duplicates(),
{
    let same = |f: Format| f;
    lemma_filter_keeps_distinct(capabilities, |f: Format| is_usable(f), same);
    let candidates = candidate_formats(capabilities);
    assert forall|i: int, j: int| 0 <= i < j < candidates.len() implies same(
        #[trigger] candidates[i],
    ) != same(#[trigger] candidates[j]) by {}
    lemma_filter_keeps_distinct(candidates, |f: Format| is_implicit(f), same);
}

/// The fallback subset is drawn from the candidates and holds implicit
/// entries only.
pub proof fn lemma_implicit_subset(candidates: Seq<Format>)
    ensures
        forall|k: int|
            0 <= k < implicit_formats(candidates).len() ==> {
                &&& is_implicit(#[trigger] implicit_formats(candidates)[k])
                &&& candidates.contains(implicit_formats(candidates)[k])
            },
        implicit_formats(candidates).len() <= candidates.len(),
        implicit_formats(candidates).len() == 0 <==> forall|i: int|
            0 <= i < candidates.len() ==> !is_implicit(#[trigger] candidates[i]),
{
    let pred = |f: Format| is_implicit(f);
    let out = implicit_formats(candidates);
    lemma_filter_subset(candidates, pred);
    candidates.lemma_filter_len(pred);
    assert forall|k: int| 0 <= k < out.len() implies is_implicit(#[trigger] out[k]) by {
        candidates.lemma_filter_pred(pred, k);
    }
    if out.len() == 0 {
        assert forall|i: int| 0 <= i < candidates.len() implies !is_implicit(
            #[trigger] candidates[i],
        ) by {
            if is_implicit(candidates[i]) {
                candidates.lemma_filter_contains(pred, i);
            }
        }
    } else {
        assert(is_implicit(out[0]));
        assert(candidates.contains(out[0]));
    }
}

} // verus!
