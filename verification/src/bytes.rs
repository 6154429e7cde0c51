//! Copying and joining byte sequences.

use vstd::prelude::*;

verus! {

/// `n` zero bytes.
pub open spec fn zeros(n: nat) -> Seq<u8> {
    Seq::new(n, |i: int| 0u8)
}

/// Appends every byte of `tail` to `out`.
pub(crate) fn append(out: &mut Vec<u8>, tail: &[u8])
    ensures
        final(out)@ == old(out)@ + tail@,
{
    out.extend_from_slice(tail);
    assert(out@ =~= old(out)@ + tail@);
}

/// The 32 bytes of `data` that begin at `from`.
pub(crate) fn copy32(data: &[u8], from: usize) -> (copy: [u8; 32])
    requires
        from + 32 <= data@.len(),
    ensures
        copy@ == data@.subrange(from as int, from + 32),
{
    let mut copy: [u8; 32] = [0u8; 32];
    for i in 0..32usize
        invariant
            from + 32 <= data.len(),
            forall|j: int| 0 <= j < i ==> copy@[j] == data@[from + j],
    {
        copy[i] = data[from + i];
    }
    assert(copy@ =~= data@.subrange(from as int, from + 32));
    copy
}

/// Overwrites the 32 bytes of `buffer` that begin at `at`.
pub(crate) fn overwrite32(buffer: &mut Vec<u8>, at: usize, source: &[u8; 32])
    requires
        at + 32 <= old(buffer)@.len(),
    ensures
        final(buffer)@ == old(buffer)@.take(at as int) + source@ + old(buffer)@.skip(at + 32),
{
    let ghost before = buffer@;
    for i in 0..32usize
        invariant
            buffer@.len() == before.len(),
            at + 32 <= buffer.len(),
            forall|j: int|
                0 <= j < before.len() ==> #[trigger] buffer@[j] == (if at <= j < at + i {
                    source@[j - at]
                } else {
                    before[j]
                }),
    {
        buffer[at + i] = source[i];
    }
    assert(buffer@ =~= before.take(at as int) + source@ + before.skip(at + 32));
}

} // verus!
