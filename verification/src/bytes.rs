//! Small operations on byte strings.

use vstd::prelude::*;

verus! {

/// `count` copies of one byte.
pub open spec fn repeat(byte: u8, count: int) -> Seq<u8> {
    Seq::new(
        if count < 0 {
            0nat
        } else {
            count as nat
        },
        |i: int| byte,
    )
}

/// What a list of byte strings stands for: the list of their contents.
pub open spec fn views(list: Seq<Vec<u8>>) -> Seq<Seq<u8>> {
    Seq::new(list.len(), |i: int| list[i]@)
}

/// Appends `count` copies of `byte`.
pub fn push_repeated(out: &mut Vec<u8>, byte: u8, count: usize)
    ensures
        final(out)@ == old(out)@ + repeat(byte, count as int),
{
    let mut i: usize = 0;
    while i < count
        invariant
            i <= count,
            out@ == old(out)@ + repeat(byte, i as int),
        decreases count - i,
    {
        out.push(byte);
        i += 1;
        assert(out@ =~= old(out)@ + repeat(byte, i as int));
    }
    assert(out@ =~= old(out)@ + repeat(byte, count as int));
}

/// Appends the bytes `begin..end` of `bytes`.
pub fn push_range(out: &mut Vec<u8>, bytes: &[u8], begin: usize, end: usize)
    requires
        begin <= end <= bytes@.len(),
    ensures
        final(out)@ == old(out)@ + bytes@.subrange(begin as int, end as int),
{
    let mut i: usize = begin;
    while i < end
        invariant
            begin <= i <= end <= bytes@.len(),
            out@ == old(out)@ + bytes@.subrange(begin as int, i as int),
        decreases end - i,
    {
        out.push(bytes[i]);
        i += 1;
        assert(out@ =~= old(out)@ + bytes@.subrange(begin as int, i as int));
    }
}

/// Appends all of `bytes`.
pub fn push_all(out: &mut Vec<u8>, bytes: &[u8])
    ensures
        final(out)@ == old(out)@ + bytes@,
{
    push_range(out, bytes, 0, bytes.len());
    assert(bytes@.subrange(0, bytes@.len() as int) =~= bytes@);
}

/// A copy of `bytes`.
pub fn copy(bytes: &[u8]) -> (out: Vec<u8>)
    ensures
        out@ == bytes@,
{
    let mut out: Vec<u8> = Vec::new();
    push_all(&mut out, bytes);
    assert(out@ =~= bytes@);
    out
}

/// Tells whether two byte strings hold the same bytes.
pub fn equal(a: &[u8], b: &[u8]) -> (same: bool)
    ensures
        same == (a@ == b@),
{
    if a.len() != b.len() {
        return false;
    }
    let mut i: usize = 0;
    while i < a.len()
        invariant
            i <= a@.len(),
            a@.len() == b@.len(),
            a@.subrange(0, i as int) == b@.subrange(0, i as int),
        decreases a@.len() - i,
    {
        if a[i] != b[i] {
            assert(a@[i as int] != b@[i as int]);
            return false;
        }
        i += 1;
        assert(a@.subrange(0, i as int) =~= a@.subrange(0, i - 1).push(a@[i - 1]));
        assert(b@.subrange(0, i as int) =~= b@.subrange(0, i - 1).push(b@[i - 1]));
    }
    assert(a@ =~= a@.subrange(0, a@.len() as int));
    assert(b@ =~= b@.subrange(0, b@.len() as int));
    true
}

} // verus!
