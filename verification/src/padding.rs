use vstd::prelude::*;

verus! {

/// A byte stream padded with zeros up to `target` bytes. A stream already at
/// or over the target is left untouched: truncating a codec stream would
/// corrupt it, so an over-budget candidate is reported, never cut.
pub open spec fn padded(bytes: Seq<u8>, target: nat) -> Seq<u8> {
    if bytes.len() >= target {
        bytes
    } else {
        bytes + Seq::new((target - bytes.len()) as nat, |i: int| 0u8)
    }
}

/// Padding never shortens the stream, meets the target exactly whenever the
/// candidate was under budget, and keeps the original stream intact as a
/// prefix, so decoders that stop at the codec's own end marker are unaffected.
pub proof fn lemma_padded_shape(bytes: Seq<u8>, target: nat)
    ensures
        padded(bytes, target).len() >= target,
        padded(bytes, target).len() >= bytes.len(),
        bytes.len() <= target ==> padded(bytes, target).len() == target,
        padded(bytes, target).subrange(0, bytes.len() as int) == bytes,
        forall|i: int| bytes.len() <= i < padded(bytes, target).len()
            ==> padded(bytes, target)[i] == 0u8,
{
    assert(padded(bytes, target).subrange(0, bytes.len() as int) =~= bytes);
}

/// Appends zero bytes so that `data` reaches exactly `target` bytes; a
/// candidate already at or over the target is returned unchanged.
pub fn pad_to_target(data: &mut Vec<u8>, target: usize)
    ensures
        final(data)@ == padded(old(data)@, target as nat),
        final(data)@.len() >= target,
{
    proof {
        lemma_padded_shape(old(data)@, target as nat);
    }
    while data.len() < target
        invariant
            data@.len() >= old(data)@.len(),
            data@.len() <= target || data@.len() == old(data)@.len(),
            data@.subrange(0, old(data)@.len() as int) == old(data)@,
            forall|i: int| old(data)@.len() <= i < data@.len() ==> data@[i] == 0u8,
        decreases target - data@.len(),
    {
        data.push(0u8);
    }
    proof {
        if old(data)@.len() < target {
            assert(data@ =~= padded(old(data)@, target as nat));
        } else {
            assert(data@ =~= old(data)@);
        }
    }
}

} // verus!
