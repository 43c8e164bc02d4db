//! Character-level path-string operations: prefix and suffix tests,
//! separator normalization, joining a relative name onto a root, and
//! `~` expansion.

use vstd::prelude::*;
use vstd::string::StrSliceExecFns;
use vstd::string::StringExecFns;

verus! {

/// `p` is a prefix of `s`.
pub open spec fn is_prefix_of(p: Seq<char>, s: Seq<char>) -> bool {
    p.len() <= s.len() && s.subrange(0, p.len() as int) == p
}

/// `p` is a suffix of `s`.
pub open spec fn is_suffix_of(p: Seq<char>, s: Seq<char>) -> bool {
    p.len() <= s.len() && s.subrange(s.len() - p.len(), s.len() as int) == p
}

/// Whether `s` starts with `p`, character for character.
pub fn starts_with_chars(s: &str, p: &str) -> (r: bool)
    ensures
        r == is_prefix_of(p@, s@),
{
    let s_len: usize = s.unicode_len();
    let p_len: usize = p.unicode_len();
    if p_len > s_len {
        assert(!is_prefix_of(p@, s@));
        return false;
    }
    let mut i: usize = 0;
    while i < p_len
        invariant
            0 <= i <= p_len <= s_len,
            s_len == s@.len(),
            p_len == p@.len(),
            forall|j: int| 0 <= j < i ==> s@[j] == p@[j],
        decreases p_len - i,
    {
        if s.get_char(i) != p.get_char(i) {
            assert(!is_prefix_of(p@, s@)) by {
                assert(s@.subrange(0, p@.len() as int)[i as int] == s@[i as int]);
            }
            return false;
        }
        i = i + 1;
    }
    assert(s@.subrange(0, p@.len() as int) =~= p@);
    true
}

/// Whether `s` ends with `p`, character for character.
pub fn ends_with_chars(s: &str, p: &str) -> (r: bool)
    ensures
        r == is_suffix_of(p@, s@),
{
    let s_len: usize = s.unicode_len();
    let p_len: usize = p.unicode_len();
    if p_len > s_len {
        assert(!is_suffix_of(p@, s@));
        return false;
    }
    let off: usize = s_len - p_len;
    let mut i: usize = 0;
    while i < p_len
        invariant
            0 <= i <= p_len <= s_len,
            s_len == s@.len(),
            p_len == p@.len(),
            off == s_len - p_len,
            forall|j: int| 0 <= j < i ==> s@[off + j] == p@[j],
        decreases p_len - i,
    {
        if s.get_char(off + i) != p.get_char(i) {
            assert(!is_suffix_of(p@, s@)) by {
                assert(s@.subrange(s@.len() - p@.len(), s@.len() as int)[i as int] == s@[off + i]);
            }
            return false;
        }
        i = i + 1;
    }
    assert(s@.subrange(s@.len() - p@.len(), s@.len() as int) =~= p@);
    true
}

/// A relative name with at most one leading separator removed.
pub open spec fn normalized(name: Seq<char>) -> Seq<char> {
    if name.len() > 0 && name[0] == '/' {
        name.skip(1)
    } else {
        name
    }
}

/// Strips at most one leading `/` from `name`.
pub fn strip_one_leading_slash(name: &str) -> (r: &str)
    ensures
        r@ == normalized(name@),
{
    let len: usize = name.unicode_len();
    if len > 0 && name.get_char(0) == '/' {
        let rest = name.substring_char(1, len);
        assert(rest@ =~= name@.skip(1));
        rest
    } else {
        name
    }
}

/// The target path for a relative name: the root, a separator unless the
/// root already ends with one, then the name.
pub open spec fn joined(root: Seq<char>, name: Seq<char>) -> Seq<char> {
    if root.len() > 0 && root[root.len() - 1] == '/' {
        root + name
    } else {
        root + seq!['/'] + name
    }
}

/// Joins a relative name onto a root path, inserting a separator unless
/// the root already ends with one.
pub fn join_path(root: &str, name: &str) -> (r: String)
    ensures
        r@ == joined(root@, name@),
{
    let root_len: usize = root.unicode_len();
    let mut out = String::from_str(root);
    if !(root_len > 0 && root.get_char(root_len - 1) == '/') {
        out.append("/");
        proof {
            reveal_strlit("/");
            assert(out@ =~= root@ + seq!['/']);
        }
    }
    out.append(name);
    out
}

/// The part of `path` after the prefix `base`, when `base` is a prefix.
pub fn strip_prefix_chars<'a>(path: &'a str, base: &str) -> (r: Option<&'a str>)
    ensures
        is_prefix_of(base@, path@) ==> (r matches Option::Some(rest) && rest@ == path@.skip(
            base@.len() as int,
        )),
        !is_prefix_of(base@, path@) ==> r is None,
{
    if starts_with_chars(path, base) {
        let rest = path.substring_char(base.unicode_len(), path.unicode_len());
        assert(rest@ =~= path@.skip(base@.len() as int));
        Some(rest)
    } else {
        None
    }
}

/// The destination string after `~` expansion: when `dest` starts with
/// `~`, that first character is replaced by `home`; otherwise `dest` is
/// unchanged.
pub open spec fn tilde_expanded(dest: Seq<char>, home: Seq<char>) -> Seq<char> {
    if dest.len() > 0 && dest[0] == '~' {
        home + dest.skip(1)
    } else {
        dest
    }
}

/// Expands a leading `~` in `dest` to `home`.
pub fn expand_tilde(dest: &str, home: &str) -> (r: String)
    ensures
        r@ == tilde_expanded(dest@, home@),
{
    let len: usize = dest.unicode_len();
    if len > 0 && dest.get_char(0) == '~' {
        let rest = dest.substring_char(1, len);
        assert(rest@ =~= dest@.skip(1));
        let mut out = String::from_str(home);
        out.append(rest);
        out
    } else {
        String::from_str(dest)
    }
}

} // verus!
