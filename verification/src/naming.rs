//! File-name logic: the stem of a name, the `.txt` extension test used by the
//! directory scan, and the derived output name built from stem and mode.
//!
//! A name is split at its last `.`, with one exception kept from the usual
//! path conventions: a name whose only `.` is its first character (a hidden
//! file such as `.txt`) has no extension, and its stem is the whole name.

use vstd::prelude::*;
use vstd::string::StrSliceExecFns;
use vstd::string::StringExecFns;

use crate::cipher::Mode;

verus! {

/// The index of the last `.` in `name`, or `-1` when there is none.
pub open spec fn last_dot_index(name: Seq<char>) -> int
    decreases name.len(),
{
    if name.len() == 0 {
        -1
    } else if name[name.len() - 1] == '.' {
        name.len() - 1
    } else {
        last_dot_index(name.drop_last())
    }
}

/// The name without its extension: everything before the last `.`, or the
/// whole name when there is no `.` past the first character.
pub open spec fn stem_of(name: Seq<char>) -> Seq<char> {
    if last_dot_index(name) >= 1 {
        name.take(last_dot_index(name))
    } else {
        name
    }
}

/// Whether the name's extension is exactly `txt` (case-sensitive): the part
/// after the last `.` is `txt`, and that `.` is not the leading character.
pub open spec fn has_txt_extension(name: Seq<char>) -> bool {
    let d = last_dot_index(name);
    d >= 1 && name.subrange(d + 1, name.len() as int) == seq!['t', 'x', 't']
}

/// The suffix the derived output name carries for each mode.
pub open spec fn suffix_spec(mode: Mode) -> Seq<char> {
    match mode {
        Mode::Encrypt => "_encrypted.txt"@,
        Mode::Decrypt => "_decrypted.txt"@,
    }
}

/// The derived output name: the source's stem with the mode's suffix.
pub open spec fn derived_name_spec(name: Seq<char>, mode: Mode) -> Seq<char> {
    stem_of(name) + suffix_spec(mode)
}

/// Where `name[k]` is a `.` and no later character is, the last dot is at `k`.
proof fn lemma_last_dot_at(name: Seq<char>, k: int)
    requires
        0 <= k < name.len(),
        name[k] == '.',
        forall|j: int| k < j < name.len() ==> name[j] != '.',
    ensures
        last_dot_index(name) == k,
    decreases name.len(),
{
    if k < name.len() - 1 {
        lemma_last_dot_at(name.drop_last(), k);
    }
}

/// A last dot, where there is one, is a `.` of the name.
proof fn lemma_last_dot_is_dot(name: Seq<char>)
    requires
        last_dot_index(name) >= 0,
    ensures
        last_dot_index(name) < name.len(),
        name[last_dot_index(name)] == '.',
    decreases name.len(),
{
    if name.len() > 0 && name[name.len() - 1] != '.' {
        lemma_last_dot_is_dot(name.drop_last());
    }
}

/// A name without any `.` has no last dot.
proof fn lemma_no_dot(name: Seq<char>)
    requires
        forall|j: int| 0 <= j < name.len() ==> name[j] != '.',
    ensures
        last_dot_index(name) == -1,
    decreases name.len(),
{
    if name.len() > 0 {
        lemma_no_dot(name.drop_last());
    }
}

/// Checks whether the name's extension is exactly `txt`, which is the same as
/// ending in `.txt` with at least one character before the dot.
pub fn name_has_txt_extension(name: &str) -> (r: bool)
    ensures
        r == has_txt_extension(name@),
{
    let n = name.unicode_len();
    if n < 5 {
        proof {
            if has_txt_extension(name@) {
                let d = last_dot_index(name@);
                lemma_last_dot_is_dot(name@);
                assert(name@.subrange(d + 1, name@.len() as int).len() == 3);
            }
        }
        return false;
    }
    let ends_in_txt = name.get_char(n - 4) == '.' && name.get_char(n - 3) == 't' && name.get_char(
        n - 2,
    ) == 'x' && name.get_char(n - 1) == 't';
    proof {
        let v = name@;
        let len = v.len() as int;
        if ends_in_txt {
            lemma_last_dot_at(v, len - 4);
            assert(v.subrange(len - 3, len) =~= seq!['t', 'x', 't']);
        } else {
            if has_txt_extension(v) {
                let d = last_dot_index(v);
                lemma_last_dot_is_dot(v);
                assert(v.subrange(d + 1, len).len() == 3);
                assert(d == len - 4);
                assert(v[len - 3] == v.subrange(d + 1, len)[0]);
                assert(v[len - 2] == v.subrange(d + 1, len)[1]);
                assert(v[len - 1] == v.subrange(d + 1, len)[2]);
            }
        }
    }
    ends_in_txt
}

/// The name without its extension, split exactly as [`stem_of`] states.
pub fn file_stem(name: &str) -> (r: &str)
    ensures
        r@ == stem_of(name@),
{
    let n = name.unicode_len();
    let mut i: usize = n;
    while i > 0
        invariant
            i <= n,
            n == name@.len(),
            forall|j: int| i <= j < n ==> name@[j] != '.',
        decreases i,
    {
        if name.get_char(i - 1) == '.' {
            proof {
                lemma_last_dot_at(name@, i - 1);
            }
            if i - 1 >= 1 {
                return name.substring_char(0, i - 1);
            } else {
                return name;
            }
        }
        i -= 1;
    }
    proof {
        lemma_no_dot(name@);
    }
    name
}

/// Builds the derived output name for a source file: its stem followed by
/// `_encrypted.txt` in Encrypt mode or `_decrypted.txt` in Decrypt mode.
pub fn derived_name(name: &str, mode: Mode) -> (r: String)
    ensures
        r@ == derived_name_spec(name@, mode),
{
    let stem = file_stem(name);
    let suffix: &str = match mode {
        Mode::Encrypt => "_encrypted.txt",
        Mode::Decrypt => "_decrypted.txt",
    };
    let mut out = stem.to_owned();
    out.append(suffix);
    out
}

} // verus!
