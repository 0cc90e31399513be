use vstd::prelude::*;
use crate::buffer::RgbBuffer;
use crate::codec::{encode_jpeg, jpeg_encoding};
use crate::error::ResizeError;
use crate::quality::{calculate_jpeg_quality_v2, quality_at, lemma_quality_schedule_monotone};

verus! {

/// The quality a search pass starts from.
pub const QUALITY_CEIL: u8 = 100;

/// The quality floor a search pass may fall to.
pub const QUALITY_FLOOR: u8 = 10;

/// The fixed iteration budget of one search pass: an internal safety bound,
/// not a caller-visible timeout.
pub const SEARCH_STEPS: usize = 16;

/// The quality scheduled for search iteration `i`.
pub open spec fn scheduled_quality(i: nat) -> u8 {
    quality_at(i, SEARCH_STEPS as nat, QUALITY_CEIL, QUALITY_FLOOR)
}

/// The encoder outcome at search iteration `i`.
pub open spec fn attempt(px: Seq<u8>, w: nat, h: nat, i: nat) -> Option<Seq<u8>> {
    jpeg_encoding(px, w, h, scheduled_quality(i))
}

/// Whether the search keeps going past iteration `i`: the attempt succeeded,
/// came out over budget, and the schedule has not yet hit the quality floor.
pub open spec fn search_continues(px: Seq<u8>, w: nat, h: nat, target: nat, i: nat) -> bool {
    &&& attempt(px, w, h, i) matches Some(b) && b.len() > target
    &&& scheduled_quality(i) != QUALITY_FLOOR
}

/// The iteration at which a search pass scanning from iteration `i` stops:
/// the first iteration whose attempt fails, meets the byte budget, or sits
/// at the quality floor — or the final iteration of the pass.
pub open spec fn search_stop_from(px: Seq<u8>, w: nat, h: nat, target: nat, i: nat) -> nat
    decreases (SEARCH_STEPS as int) - i,
{
    if i >= (SEARCH_STEPS - 1) as nat {
        i
    } else if search_continues(px, w, h, target, i) {
        search_stop_from(px, w, h, target, i + 1)
    } else {
        i
    }
}

/// The iteration at which a full search pass stops.
pub open spec fn search_stop(px: Seq<u8>, w: nat, h: nat, target: nat) -> nat {
    search_stop_from(px, w, h, target, 0)
}

/// One selected candidate from the lossy search: the encoded stream, the
/// quality it was encoded at, and whether the byte budget went unmet.
pub struct LossyOutcome {
    pub bytes: Vec<u8>,
    pub quality: u8,
    pub budget_unreachable: bool,
}

/// Searches for the largest scheduled quality whose JPEG encoding of `buf`
/// fits within `target` bytes, following the deterministic non-increasing
/// schedule and stopping at the first attempt that fits. If no attempt fits,
/// the most recent (smallest) over-budget attempt is kept and flagged; if
/// the very first encode fails there is nothing to fall back to and the
/// search fails.
pub fn quality_search(buf: &RgbBuffer, target: usize) -> (r: Result<LossyOutcome, ResizeError>)
    requires
        buf.wf(),
    ensures
        ({
            let px = buf.data@;
            let w = buf.width as nat;
            let h = buf.height as nat;
            let k = search_stop(px, w, h, target as nat);
            &&& (r is Err <==> attempt(px, w, h, 0) is None)
            &&& (r matches Err(e) ==> e == ResizeError::EncodeFailure)
            &&& (r matches Ok(out) ==> {
                &&& (attempt(px, w, h, k) matches Some(b) ==> out.bytes@ == b
                    && out.quality == scheduled_quality(k)
                    && out.budget_unreachable == (b.len() > target))
                &&& (attempt(px, w, h, k) is None ==> k > 0
                    && (attempt(px, w, h, (k - 1) as nat) matches Some(b) && out.bytes@ == b)
                    && out.quality == scheduled_quality((k - 1) as nat)
                    && out.budget_unreachable)
            })
        }),
{
    let ghost px = buf.data@;
    let ghost w = buf.width as nat;
    let ghost h = buf.height as nat;
    let ghost tgt = target as nat;
    let mut i: usize = 0;
    let mut last_over: Option<Vec<u8>> = None;
    let mut last_quality: u8 = QUALITY_CEIL;
    loop
        invariant
            buf.wf(),
            px == buf.data@,
            w == buf.width as nat,
            h == buf.height as nat,
            tgt == target as nat,
            i < SEARCH_STEPS,
            search_stop_from(px, w, h, tgt, 0) == search_stop_from(px, w, h, tgt, i as nat),
            forall|j: nat| j < i ==> search_continues(px, w, h, tgt, j),
            i > 0 ==> (last_over matches Some(v)
                && Some(v@) == attempt(px, w, h, (i - 1) as nat)
                && last_quality == scheduled_quality((i - 1) as nat)),
        decreases SEARCH_STEPS - i,
    {
        let q = calculate_jpeg_quality_v2(i, SEARCH_STEPS, QUALITY_CEIL, QUALITY_FLOOR);
        match encode_jpeg(buf, q) {
            Err(_) => {
                proof {
                    assert(!search_continues(px, w, h, tgt, i as nat));
                    assert(search_stop_from(px, w, h, tgt, i as nat) == i as nat);
                }
                if i == 0 {
                    return Err(ResizeError::EncodeFailure);
                }
                let bytes = last_over.unwrap();
                return Ok(LossyOutcome {
                    bytes,
                    quality: last_quality,
                    budget_unreachable: true,
                });
            },
            Ok(encoded) => {
                if encoded.len() <= target {
                    proof {
                        assert(!search_continues(px, w, h, tgt, i as nat));
                        assert(search_stop_from(px, w, h, tgt, i as nat) == i as nat);
                    }
                    return Ok(LossyOutcome {
                        bytes: encoded,
                        quality: q,
                        budget_unreachable: false,
                    });
                }
                if q == QUALITY_FLOOR || i + 1 == SEARCH_STEPS {
                    proof {
                        assert(search_stop_from(px, w, h, tgt, i as nat) == i as nat);
                    }
                    return Ok(LossyOutcome {
                        bytes: encoded,
                        quality: q,
                        budget_unreachable: true,
                    });
                }
                proof {
                    assert(search_continues(px, w, h, tgt, i as nat));
                    assert(search_stop_from(px, w, h, tgt, i as nat)
                        == search_stop_from(px, w, h, tgt, (i + 1) as nat));
                }
                last_over = Some(encoded);
                last_quality = q;
                i = i + 1;
            },
        }
    }
}

/// Before the stop index, every attempt succeeded and came out over budget:
/// the stop is the first iteration that fits the budget (or fails, or sits
/// at the floor), so the search accepts the largest scheduled quality that
/// meets the budget in the pass.
pub proof fn lemma_search_stop_is_first(px: Seq<u8>, w: nat, h: nat, target: nat)
    ensures
        search_stop(px, w, h, target) < SEARCH_STEPS,
        forall|j: nat| j < search_stop(px, w, h, target)
            ==> #[trigger] search_continues(px, w, h, target, j),
{
    lemma_search_stop_from_is_first(px, w, h, target, 0);
    assert forall|j: nat| j < search_stop(px, w, h, target)
        implies #[trigger] search_continues(px, w, h, target, j) by {
        lemma_search_stop_from_skips(px, w, h, target, 0, j);
    }
}

proof fn lemma_search_stop_from_is_first(px: Seq<u8>, w: nat, h: nat, target: nat, i: nat)
    requires
        i < SEARCH_STEPS,
    ensures
        i <= search_stop_from(px, w, h, target, i) < SEARCH_STEPS,
    decreases (SEARCH_STEPS as int) - i,
{
    if i < (SEARCH_STEPS - 1) as nat && search_continues(px, w, h, target, i) {
        lemma_search_stop_from_is_first(px, w, h, target, i + 1);
    }
}

proof fn lemma_search_stop_from_skips(px: Seq<u8>, w: nat, h: nat, target: nat, i: nat, j: nat)
    requires
        i <= j < search_stop_from(px, w, h, target, i),
        i < SEARCH_STEPS,
    ensures
        search_continues(px, w, h, target, j),
    decreases (SEARCH_STEPS as int) - i,
{
    lemma_search_stop_from_is_first(px, w, h, target, i);
    if i < (SEARCH_STEPS - 1) as nat && search_continues(px, w, h, target, i) {
        if j > i {
            lemma_search_stop_from_skips(px, w, h, target, i + 1, j);
        }
    }
}

/// If the first, highest-quality attempt already fits the budget, the pass
/// stops right there: that baseline is accepted and no lower-quality encode
/// is ever scheduled.
pub proof fn lemma_first_fit_stops_search(px: Seq<u8>, w: nat, h: nat, target: nat)
    requires
        attempt(px, w, h, 0) matches Some(b) && b.len() <= target,
    ensures
        search_stop(px, w, h, target) == 0,
{
    assert(!search_continues(px, w, h, target, 0));
}

/// The quality the search settles on is the largest scheduled quality that
/// fits the budget: the schedule is non-increasing, and every earlier
/// (higher-quality) attempt came out over budget.
pub proof fn lemma_search_prefers_quality(px: Seq<u8>, w: nat, h: nat, target: nat, j: nat)
    requires
        j <= search_stop(px, w, h, target),
    ensures
        scheduled_quality(search_stop(px, w, h, target)) <= scheduled_quality(j),
        j < search_stop(px, w, h, target) ==> (attempt(px, w, h, j) matches Some(b)
            && b.len() > target),
{
    lemma_quality_schedule_monotone(
        j,
        search_stop(px, w, h, target),
        SEARCH_STEPS as nat,
        QUALITY_CEIL,
        QUALITY_FLOOR,
    );
    if j < search_stop(px, w, h, target) {
        lemma_search_stop_is_first(px, w, h, target);
        assert(search_continues(px, w, h, target, j));
    }
}

} // verus!
