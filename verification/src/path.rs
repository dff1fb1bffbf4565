//! Paths as byte strings: file names, extensions, and the path of the output
//! that belongs to an input.
//!
//! Components are separated by `/`. Bytes are compared as they are: there is
//! no folding of case and no other normalization.

use vstd::prelude::*;
use crate::bytes::{equal, push_all, push_range};

verus! {

/// The byte that separates the components of a path.
pub const SLASH: u8 = 47u8;

/// The byte that separates a file name from its extension.
pub const DOT: u8 = 46u8;

/// Position of the last `byte` among the first `upto` bytes of `s`, or `-1`
/// where there is none.
pub open spec fn last_index_of(s: Seq<u8>, byte: u8, upto: int) -> int
    decreases upto,
{
    if upto <= 0 {
        -1
    } else if s[upto - 1] == byte {
        upto - 1
    } else {
        last_index_of(s, byte, upto - 1)
    }
}

/// The last component of a path: what follows the last separator.
pub open spec fn spec_file_name(path: Seq<u8>) -> Seq<u8> {
    path.subrange(last_index_of(path, SLASH, path.len() as int) + 1, path.len() as int)
}

/// Position in a file name at which its extension begins, or `-1` where the
/// name has none.
///
/// The extension is what follows the last dot of the name. A name without a
/// dot has none, nor has a name whose only dot is its first byte, nor `..`.
pub open spec fn spec_extension_begin(name: Seq<u8>) -> int {
    let dot = last_index_of(name, DOT, name.len() as int);
    if dot <= 0 || name == seq![DOT, DOT] {
        -1
    } else {
        dot + 1
    }
}

/// The extension of a file name.
pub open spec fn spec_extension(name: Seq<u8>) -> Option<Seq<u8>> {
    let begin = spec_extension_begin(name);
    if begin < 0 {
        None
    } else {
        Some(name.subrange(begin, name.len() as int))
    }
}

/// The path of the entry `name` of the directory `dir`.
pub open spec fn spec_join(dir: Seq<u8>, name: Seq<u8>) -> Seq<u8> {
    if dir.len() == 0 {
        name
    } else if dir.last() == SLASH {
        dir + name
    } else {
        dir + seq![SLASH] + name
    }
}

/// A path without the extension of its file name and without the dot before
/// it; the whole path where the file name has no extension.
pub open spec fn spec_stem(path: Seq<u8>) -> Seq<u8> {
    let begin = spec_extension_begin(spec_file_name(path));
    if begin < 0 {
        path
    } else {
        path.subrange(0, path.len() - (spec_file_name(path).len() - begin) - 1)
    }
}

/// A path with the extension of its file name replaced.
pub open spec fn spec_with_extension(path: Seq<u8>, extension: Seq<u8>) -> Seq<u8> {
    spec_stem(path) + seq![DOT] + extension
}

/// The extension of every generated file: `rs`.
pub open spec fn spec_output_extension() -> Seq<u8> {
    seq!['r' as u8, 's' as u8]
}

/// The path of the output that belongs to the input at `path`.
pub open spec fn spec_output_path(path: Seq<u8>) -> Seq<u8> {
    spec_with_extension(path, spec_output_extension())
}

/// The last `byte` among the first `upto` bytes is at the position found, and
/// no `byte` follows it there.
pub proof fn lemma_last_index_of(s: Seq<u8>, byte: u8, upto: int)
    requires
        0 <= upto <= s.len(),
    ensures
        -1 <= last_index_of(s, byte, upto) < upto,
        last_index_of(s, byte, upto) >= 0 ==> s[last_index_of(s, byte, upto)] == byte,
        forall|i: int| last_index_of(s, byte, upto) < i < upto ==> s[i] != byte,
    decreases upto,
{
    if upto > 0 && s[upto - 1] != byte {
        lemma_last_index_of(s, byte, upto - 1);
    }
}

/// Position just behind the last `byte` in `s`; zero where there is none.
fn after_last(s: &[u8], byte: u8) -> (after: usize)
    ensures
        after == last_index_of(s@, byte, s@.len() as int) + 1,
        after <= s@.len(),
{
    let mut upto: usize = s.len();
    while upto > 0
        invariant
            upto <= s@.len(),
            last_index_of(s@, byte, s@.len() as int) == last_index_of(s@, byte, upto as int),
        decreases upto,
    {
        if s[upto - 1] == byte {
            return upto;
        }
        upto -= 1;
    }
    0
}

/// Position in `path` at which its file name begins.
pub fn file_name_begin(path: &[u8]) -> (begin: usize)
    ensures
        begin <= path@.len(),
        path@.subrange(begin as int, path@.len() as int) == spec_file_name(path@),
        begin == last_index_of(path@, SLASH, path@.len() as int) + 1,
{
    after_last(path, SLASH)
}

/// Position in the file name `name` at which its extension begins.
pub fn extension_begin(name: &[u8]) -> (begin: Option<usize>)
    ensures
        match begin {
            Some(b) => b == spec_extension_begin(name@) && 0 < b <= name@.len(),
            None => spec_extension_begin(name@) == -1,
        },
{
    let after = after_last(name, DOT);
    proof {
        lemma_last_index_of(name@, DOT, name@.len() as int);
    }
    if after <= 1 {
        None
    } else if name.len() == 2 && name[0] == DOT {
        assert(name@ =~= seq![DOT, DOT]);
        None
    } else {
        assert(name@ != seq![DOT, DOT]) by {
            if name@ == seq![DOT, DOT] {
                assert(seq![DOT, DOT].len() == 2);
                assert(seq![DOT, DOT][0] == DOT);
            }
        }
        Some(after)
    }
}

/// Tells whether the extension of the file name `name` is `extension`,
/// byte for byte.
pub fn has_extension(name: &[u8], extension: &[u8]) -> (matches: bool)
    ensures
        matches == (spec_extension(name@) == Some(extension@)),
{
    match extension_begin(name) {
        None => false,
        Some(begin) => {
            let tail = vstd::slice::slice_subrange(name, begin, name.len());
            equal(tail, extension)
        },
    }
}

/// The path of the entry `name` of the directory `dir`.
pub fn join(dir: &[u8], name: &[u8]) -> (path: Vec<u8>)
    ensures
        path@ == spec_join(dir@, name@),
{
    let mut path: Vec<u8> = Vec::new();
    push_all(&mut path, dir);
    if dir.len() > 0 && dir[dir.len() - 1] != SLASH {
        path.push(SLASH);
    }
    push_all(&mut path, name);
    assert(path@ =~= spec_join(dir@, name@));
    path
}

/// The path with the extension of its file name replaced by `extension`.
pub fn with_extension(path: &[u8], extension: &[u8]) -> (out: Vec<u8>)
    ensures
        out@ == spec_with_extension(path@, extension@),
{
    let name_begin = file_name_begin(path);
    let name = vstd::slice::slice_subrange(path, name_begin, path.len());
    let stem_end: usize = match extension_begin(name) {
        None => path.len(),
        Some(begin) => name_begin + begin - 1,
    };
    let mut out: Vec<u8> = Vec::new();
    push_range(&mut out, path, 0, stem_end);
    out.push(DOT);
    push_all(&mut out, extension);
    out
}

/// The path of the output that belongs to the input at `path`.
pub fn output_path(path: &[u8]) -> (out: Vec<u8>)
    ensures
        out@ == spec_output_path(path@),
{
    let mut extension: Vec<u8> = Vec::new();
    extension.push('r' as u8);
    extension.push('s' as u8);
    assert(extension@ =~= spec_output_extension());
    with_extension(path, extension.as_slice())
}

/// Bytes other than `byte` at the end of a range do not matter to the
/// position of the last `byte` in it.
pub proof fn lemma_last_index_skips(s: Seq<u8>, byte: u8, from: int, upto: int)
    requires
        0 <= from <= upto <= s.len(),
        forall|i: int| from <= i < upto ==> s[i] != byte,
    ensures
        last_index_of(s, byte, upto) == last_index_of(s, byte, from),
    decreases upto - from,
{
    if from < upto {
        lemma_last_index_skips(s, byte, from, upto - 1);
    }
}

/// The file name of the path of an entry is the name of the entry, as long as
/// the name holds no separator.
pub proof fn law_file_name_of_join(dir: Seq<u8>, name: Seq<u8>)
    requires
        forall|i: int| 0 <= i < name.len() ==> name[i] != SLASH,
    ensures
        spec_file_name(spec_join(dir, name)) == name,
{
    let path = spec_join(dir, name);
    let begin = path.len() - name.len();
    assert forall|i: int| begin <= i < path.len() implies path[i] != SLASH by {
        assert(path[i] == name[i - begin]);
    }
    lemma_last_index_skips(path, SLASH, begin, path.len() as int);
    if dir.len() == 0 {
    } else if dir.last() == SLASH {
        assert(path[begin - 1] == SLASH);
    } else {
        assert(path[begin - 1] == SLASH);
    }
    assert(last_index_of(path, SLASH, path.len() as int) == begin - 1);
    assert(path.subrange(begin, path.len() as int) =~= name);
}

/// A path whose file name has an extension is its stem, a dot, and the
/// extension.
pub proof fn lemma_stem_and_extension(path: Seq<u8>)
    requires
        spec_extension(spec_file_name(path)) is Some,
    ensures
        path == spec_stem(path) + seq![DOT] + spec_extension(spec_file_name(path))->Some_0,
{
    lemma_last_index_of(path, SLASH, path.len() as int);
    let name = spec_file_name(path);
    lemma_last_index_of(name, DOT, name.len() as int);
    assert(path =~= spec_stem(path) + seq![DOT] + spec_extension(name)->Some_0);
}

/// Inputs and outputs correspond one to one: two inputs with the same
/// extension that have the same output path are the same input.
pub proof fn law_output_path_one_to_one(a: Seq<u8>, b: Seq<u8>)
    requires
        spec_extension(spec_file_name(a)) is Some,
        spec_extension(spec_file_name(a)) == spec_extension(spec_file_name(b)),
        spec_output_path(a) == spec_output_path(b),
    ensures
        a == b,
{
    lemma_stem_and_extension(a);
    lemma_stem_and_extension(b);
    let tail = seq![DOT] + spec_output_extension();
    assert(spec_output_path(a) =~= spec_stem(a) + tail);
    assert(spec_output_path(b) =~= spec_stem(b) + tail);
    assert(spec_stem(a) =~= (spec_stem(a) + tail).subrange(0, spec_stem(a).len() as int));
    assert(spec_stem(b) =~= (spec_stem(b) + tail).subrange(0, spec_stem(b).len() as int));
    assert(spec_stem(a).len() == spec_stem(b).len()) by {
        assert((spec_stem(a) + tail).len() == (spec_stem(b) + tail).len());
    }
}

/// The output of an input has the extension of generated files, whatever the
/// extension of the input was: its path is the stem, a dot, and `rs`.
pub proof fn law_output_path_shape(path: Seq<u8>)
    ensures
        spec_output_path(path) == spec_stem(path) + seq![DOT, 'r' as u8, 's' as u8],
        spec_output_path(path).len() == spec_stem(path).len() + 3,
{
    assert(spec_output_path(path) =~= spec_stem(path) + seq![DOT, 'r' as u8, 's' as u8]);
}

/// The position of the last `byte` among the first `upto` bytes is the same
/// in two byte strings that agree on those bytes.
pub proof fn lemma_last_index_agrees(a: Seq<u8>, b: Seq<u8>, byte: u8, upto: int)
    requires
        0 <= upto <= a.len(),
        upto <= b.len(),
        forall|i: int| 0 <= i < upto ==> a[i] == b[i],
    ensures
        last_index_of(a, byte, upto) == last_index_of(b, byte, upto),
    decreases upto,
{
    if upto > 0 && a[upto - 1] != byte {
        lemma_last_index_agrees(a, b, byte, upto - 1);
    }
}

/// The output of an input whose file name has an extension has a file name
/// with the extension of generated files.
pub proof fn law_output_has_output_extension(path: Seq<u8>)
    requires
        spec_extension(spec_file_name(path)) is Some,
    ensures
        spec_extension(spec_file_name(spec_output_path(path))) == Some(spec_output_extension()),
{
    let out = spec_output_path(path);
    let len = path.len() as int;
    let name_begin = last_index_of(path, SLASH, len) + 1;
    let name = spec_file_name(path);
    lemma_last_index_of(path, SLASH, len);
    lemma_last_index_of(name, DOT, name.len() as int);
    // Position in the path of the dot before the extension.
    let dot = name_begin + last_index_of(name, DOT, name.len() as int);
    assert(name_begin < dot < len);
    assert(spec_stem(path) =~= path.subrange(0, dot));
    law_output_path_shape(path);
    assert(out.len() == dot + 3);
    assert(out[dot] == DOT && out[dot + 1] == 'r' as u8 && out[dot + 2] == 's' as u8);
    assert forall|i: int| 0 <= i < dot implies out[i] == path[i] by {}
    // The file name of the output begins where that of the input begins.
    lemma_last_index_skips(out, SLASH, dot, dot + 3);
    lemma_last_index_agrees(out, path, SLASH, dot);
    lemma_last_index_skips(path, SLASH, dot, len);
    assert(last_index_of(out, SLASH, out.len() as int) == name_begin - 1);
    let out_name = spec_file_name(out);
    assert(out_name =~= out.subrange(name_begin, dot + 3));
    // Its last dot is the one before `rs`.
    let at = dot - name_begin;
    assert(out_name[at] == DOT && out_name[at + 1] == 'r' as u8 && out_name[at + 2] == 's' as u8);
    lemma_last_index_skips(out_name, DOT, at + 1, at + 3);
    assert(last_index_of(out_name, DOT, out_name.len() as int) == at);
    assert(out_name != seq![DOT, DOT]) by {
        assert(seq![DOT, DOT].len() == 2);
    }
    assert(out_name.subrange(at + 1, out_name.len() as int) =~= spec_output_extension());
}

} // verus!
