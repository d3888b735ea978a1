use vstd::prelude::*;

verus! {

/// Copies the first elements of `src` over those of `replaced`, as many as both hold.
pub fn slice_copy<T: Clone>(replaced: &mut [T], src: &[T])
    ensures
        final(replaced)@.len() == old(replaced)@.len(),
        forall|i: int|
            0 <= i < old(replaced)@.len() && i < src@.len() ==> vstd::pervasive::cloned::<T>(
                src@[i],
                #[trigger] final(replaced)@[i],
            ),
        forall|i: int| src@.len() <= i < old(replaced)@.len() ==> #[trigger] final(replaced)@[i] == old(replaced)@[i],
{
    let min_len = if replaced.len() < src.len() {
        replaced.len()
    } else {
        src.len()
    };
    let mut i: usize = 0;
    while i < min_len
        invariant
            min_len <= replaced@.len(),
            min_len <= src@.len(),
            min_len == old(replaced)@.len() || min_len == src@.len(),
            i <= min_len,
            replaced@.len() == old(replaced)@.len(),
            forall|j: int| 0 <= j < i ==> vstd::pervasive::cloned::<T>(src@[j], #[trigger] replaced@[j]),
            forall|j: int| i <= j < replaced@.len() ==> #[trigger] replaced@[j] == old(replaced)@[j],
        decreases min_len - i,
    {
        replaced[i] = src[i].clone();
        i = i + 1;
    }
}

} // verus!
