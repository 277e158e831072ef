//! File names: sanitising titles, and splitting a file name into its stem and
//! extension the way `std::path::Path` does for a single path component.
use vstd::prelude::*;

verus! {

/// Characters that are never allowed in a generated file name.
pub open spec fn is_reserved_char(c: char) -> bool {
    c == '<' || c == '>' || c == ':' || c == '\'' || c == '"' || c == '/' || c == '\\'
        || c == '|' || c == '?' || c == '*'
}

/// A character survives sanitising when it is printable ASCII (neither a
/// control character nor outside ASCII) and not reserved.
pub open spec fn keeps_char(c: char) -> bool {
    ' ' <= c && c <= '~' && !is_reserved_char(c)
}

/// The characters of `s` that survive sanitising, in their order.
pub open spec fn sanitized(s: Seq<char>) -> Seq<char>
    decreases s.len(),
{
    if s.len() == 0 {
        Seq::empty()
    } else if keeps_char(s.last()) {
        sanitized(s.drop_last()).push(s.last())
    } else {
        sanitized(s.drop_last())
    }
}

/// Index of the last `'.'` in `s`, or -1 when there is none.
pub open spec fn last_dot(s: Seq<char>) -> int
    decreases s.len(),
{
    if s.len() == 0 {
        -1
    } else if s.last() == '.' {
        s.len() - 1
    } else {
        last_dot(s.drop_last())
    }
}

/// Whether `s` is the parent-directory name `..`.
pub open spec fn is_parent_name(s: Seq<char>) -> bool {
    s.len() == 2 && s[0] == '.' && s[1] == '.'
}

/// The stem of a file name: everything before the last dot, unless that dot
/// opens the name (a hidden file) or the name is `..`.
pub open spec fn stem_of(s: Seq<char>) -> Seq<char> {
    if is_parent_name(s) || last_dot(s) <= 0 {
        s
    } else {
        s.subrange(0, last_dot(s))
    }
}

/// The extension of a file name: what follows the last dot, present exactly
/// when the stem is a proper prefix.
pub open spec fn extension_of(s: Seq<char>) -> Option<Seq<char>> {
    if is_parent_name(s) || last_dot(s) <= 0 {
        None
    } else {
        Some(s.subrange(last_dot(s) + 1, s.len() as int))
    }
}

/// The last dot lies inside the name and is a dot.
pub proof fn lemma_last_dot_bounds(s: Seq<char>)
    ensures
        -1 <= last_dot(s) < s.len(),
        last_dot(s) >= 0 ==> s[last_dot(s)] == '.',
    decreases s.len(),
{
    if s.len() > 0 && s.last() != '.' {
        lemma_last_dot_bounds(s.drop_last());
    }
}

fn keeps(c: char) -> (r: bool)
    ensures
        r == keeps_char(c),
{
    ' ' <= c && c <= '~' && !(c == '<' || c == '>' || c == ':' || c == '\'' || c == '"'
        || c == '/' || c == '\\' || c == '|' || c == '?' || c == '*')
}

/// Removes every character that may not appear in a file name: the reserved
/// characters `< > : ' " / \ | ? *`, control characters and non-ASCII.
pub fn make_filename_compatible(filename: &str) -> (clean: String)
    ensures
        clean@ == sanitized(filename@),
{
    let mut clean = String::new();
    let n = filename.unicode_len();
    let mut i: usize = 0;
    while i < n
        invariant
            n == filename@.len(),
            i <= n,
            clean@ == sanitized(filename@.subrange(0, i as int)),
        decreases n - i,
    {
        let c = filename.get_char(i);
        proof {
            let s = filename@.subrange(0, i as int + 1);
            assert(s.drop_last() =~= filename@.subrange(0, i as int));
            assert(s.last() == c);
        }
        if keeps(c) {
            clean.append(filename.substring_char(i, i + 1));
            proof {
                assert(filename@.subrange(i as int, i as int + 1) =~= seq![c]);
            }
        }
        i = i + 1;
    }
    proof {
        assert(filename@.subrange(0, n as int) =~= filename@);
    }
    clean
}

fn last_dot_index(name: &str) -> (r: Option<usize>)
    ensures
        match r {
            Some(i) => i as int == last_dot(name@),
            None => last_dot(name@) == -1,
        },
{
    let n = name.unicode_len();
    let mut j: usize = n;
    assert(name@.subrange(0, n as int) =~= name@);
    while j > 0
        invariant
            n == name@.len(),
            j <= n,
            last_dot(name@) == last_dot(name@.subrange(0, j as int)),
        decreases j,
    {
        let s = Ghost(name@.subrange(0, j as int));
        assert(s@.drop_last() =~= name@.subrange(0, j as int - 1));
        if name.get_char(j - 1) == '.' {
            return Some(j - 1);
        }
        j = j - 1;
    }
    assert(name@.subrange(0, 0) =~= Seq::<char>::empty());
    None
}

fn is_parent(name: &str) -> (r: bool)
    ensures
        r == is_parent_name(name@),
{
    name.unicode_len() == 2 && name.get_char(0) == '.' && name.get_char(1) == '.'
}

/// The stem of a directory entry's file name (see `stem_of`).
pub fn file_stem(name: &str) -> (stem: String)
    ensures
        stem@ == stem_of(name@),
{
    proof {
        lemma_last_dot_bounds(name@);
    }
    if is_parent(name) {
        return String::from_str(name);
    }
    match last_dot_index(name) {
        Some(d) if d > 0 => String::from_str(name.substring_char(0, d)),
        _ => String::from_str(name),
    }
}

/// The extension of a directory entry's file name (see `extension_of`).
pub fn file_extension(name: &str) -> (ext: Option<String>)
    ensures
        match ext {
            Some(e) => extension_of(name@) == Some(e@),
            None => extension_of(name@) is None,
        },
{
    proof {
        lemma_last_dot_bounds(name@);
    }
    if is_parent(name) {
        return None;
    }
    match last_dot_index(name) {
        Some(d) if d > 0 => {
            let n = name.unicode_len();
            Some(String::from_str(name.substring_char(d + 1, n)))
        },
        _ => None,
    }
}

} // verus!
