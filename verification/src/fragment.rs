//! Writing fragments of encoded messages.

use vstd::prelude::*;

verus! {

/// Describes the type of a fragment for logging purposes.
#[derive(Clone, Copy, Debug, Eq, PartialEq, Structural)]
pub enum FragmentKind {
    Line,
    Literal,
}

/// Appends the bytes of a fragment to the write buffer.
pub fn write_fragment(write_buffer: &mut Vec<u8>, fragment_data: &[u8], fragment_kind: FragmentKind)
    ensures
        final(write_buffer)@ == old(write_buffer)@ + fragment_data@,
{
    let mut i: usize = 0;
    while i < fragment_data.len()
        invariant
            i <= fragment_data@.len(),
            write_buffer@ == old(write_buffer)@ + fragment_data@.take(i as int),
        decreases fragment_data@.len() - i,
    {
        write_buffer.push(fragment_data[i]);
        assert(fragment_data@.take(i + 1) =~= fragment_data@.take(i as int).push(fragment_data@[i as int]));
        i = i + 1;
    }
    assert(fragment_data@.take(fragment_data@.len() as int) =~= fragment_data@);
}

} // verus!
