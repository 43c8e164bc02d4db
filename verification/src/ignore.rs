//! The ignore-pattern set: the control file that carries it, the
//! line-by-line reading of its content, and the prefix test that decides
//! whether a relative name is ignored.

use vstd::prelude::*;
use vstd::string::StrSliceExecFns;
use vstd::string::StringExecFns;
use crate::paths::is_prefix_of;

verus! {

/// The characters of the control file's name, `.stow-local-ignore`.
pub open spec fn control_file_chars() -> Seq<char> {
    seq![
        '.',
        's',
        't',
        'o',
        'w',
        '-',
        'l',
        'o',
        'c',
        'a',
        'l',
        '-',
        'i',
        'g',
        'n',
        'o',
        'r',
        'e',
    ]
}

/// The name of the optional control file at the source root.
pub fn control_file_name() -> (r: &'static str)
    ensures
        r@ == control_file_chars(),
{
    let name = ".stow-local-ignore";
    proof {
        reveal_strlit(".stow-local-ignore");
        assert(name@ =~= control_file_chars());
    }
    name
}

/// A normalized relative name is ignored when some pattern in the set is
/// a prefix of it.
pub open spec fn ignored_spec(name: Seq<char>, patterns: Seq<Seq<char>>) -> bool {
    exists|k: int| 0 <= k < patterns.len() && is_prefix_of(#[trigger] patterns[k], name)
}

/// Whether some pattern in the set is a prefix of `name`.
pub fn is_ignored(name: &str, patterns: &Vec<String>) -> (r: bool)
    ensures
        r == ignored_spec(name@, patterns.deep_view()),
{
    let n: usize = patterns.len();
    let mut k: usize = 0;
    while k < n
        invariant
            0 <= k <= n,
            n == patterns.len(),
            forall|j: int| 0 <= j < k ==> !is_prefix_of(#[trigger] patterns.deep_view()[j], name@),
        decreases n - k,
    {
        if crate::paths::starts_with_chars(name, patterns[k].as_str()) {
            assert(patterns.deep_view()[k as int] == patterns[k as int]@);
            return true;
        }
        assert(patterns.deep_view()[k as int] == patterns[k as int]@);
        k = k + 1;
    }
    false
}

/// A line with one trailing carriage return removed, as the line reader
/// strips a CRLF pair.
pub open spec fn chomped(line: Seq<char>) -> Seq<char> {
    if line.len() > 0 && line[line.len() - 1] == '\r' {
        line.drop_last()
    } else {
        line
    }
}

/// The lines of `s` after the partial line `cur`: each newline ends the
/// line gathered so far (with a CRLF's carriage return stripped), and a
/// last line without a newline is kept as it stands, while a trailing
/// newline adds no empty line.
pub open spec fn lines_rec(s: Seq<char>, cur: Seq<char>) -> Seq<Seq<char>>
    decreases s.len(),
{
    if s.len() == 0 {
        if cur.len() == 0 {
            Seq::empty()
        } else {
            seq![cur]
        }
    } else if s[0] == '\n' {
        seq![chomped(cur)] + lines_rec(s.skip(1), Seq::empty())
    } else {
        lines_rec(s.skip(1), cur.push(s[0]))
    }
}

/// The lines of `s`, as a buffered line reader yields them.
pub open spec fn lines_spec(s: Seq<char>) -> Seq<Seq<char>> {
    lines_rec(s, Seq::empty())
}

/// Splits `content` into lines: each line ends at a newline, which is
/// dropped together with a carriage return just before it, and a final
/// fragment without a newline is a line of its own.
pub fn split_lines(content: &str) -> (r: Vec<String>)
    ensures
        r.deep_view() == lines_spec(content@),
{
    let len: usize = content.unicode_len();
    let mut out: Vec<String> = Vec::new();
    let mut line_start: usize = 0;
    let mut i: usize = 0;
    proof {
        assert(content@.skip(0) =~= content@);
        assert(content@.subrange(0, 0) =~= Seq::<char>::empty());
        assert(out.deep_view() + lines_rec(content@, Seq::<char>::empty()) =~= lines_spec(
            content@,
        ));
    }
    while i < len
        invariant
            0 <= line_start <= i <= len,
            len == content@.len(),
            forall|j: int| line_start <= j < i ==> content@[j] != '\n',
            out.deep_view() + lines_rec(
                content@.skip(i as int),
                content@.subrange(line_start as int, i as int),
            ) == lines_spec(content@),
        decreases len - i,
    {
        let ghost cur = content@.subrange(line_start as int, i as int);
        let ghost rest = content@.skip(i as int);
        proof {
            assert(rest[0] == content@[i as int]);
            assert(rest.skip(1) =~= content@.skip(i as int + 1));
        }
        let c = content.get_char(i);
        if c == '\n' {
            let line_end: usize = if i > line_start && content.get_char(i - 1) == '\r' {
                i - 1
            } else {
                i
            };
            let line = content.substring_char(line_start, line_end);
            proof {
                if i > line_start && content@[i as int - 1] == '\r' {
                    assert(cur.len() > 0 && cur[cur.len() - 1] == '\r');
                    assert(line@ =~= cur.drop_last());
                } else {
                    assert(line@ =~= chomped(cur));
                }
                assert(lines_rec(rest, cur) == seq![chomped(cur)] + lines_rec(
                    rest.skip(1),
                    Seq::empty(),
                ));
            }
            let ghost prev = out.deep_view();
            let owned = String::from_str(line);
            out.push(owned);
            proof {
                assert(out.deep_view() =~= prev.push(chomped(cur)));
                assert(out.deep_view() + lines_rec(
                    content@.skip(i as int + 1),
                    Seq::<char>::empty(),
                ) =~= prev + lines_rec(rest, cur));
                assert(content@.subrange(i as int + 1, i as int + 1) =~= Seq::<char>::empty());
            }
            line_start = i + 1;
        } else {
            proof {
                assert(lines_rec(rest, cur) == lines_rec(rest.skip(1), cur.push(rest[0])));
                assert(cur.push(content@[i as int]) =~= content@.subrange(
                    line_start as int,
                    i as int + 1,
                ));
            }
        }
        i = i + 1;
    }
    proof {
        assert(content@.skip(len as int) =~= Seq::<char>::empty());
    }
    if line_start < len {
        let ghost prev = out.deep_view();
        let line = content.substring_char(line_start, len);
        let owned = String::from_str(line);
        out.push(owned);
        proof {
            assert(line@ == content@.subrange(line_start as int, len as int));
            assert(out.deep_view() =~= prev.push(line@));
            assert(out.deep_view() =~= lines_spec(content@));
        }
    } else {
        proof {
            assert(content@.subrange(line_start as int, len as int).len() == 0);
            assert(out.deep_view() + lines_rec(
                Seq::<char>::empty(),
                content@.subrange(line_start as int, len as int),
            ) =~= out.deep_view());
        }
    }
    out
}

} // verus!
