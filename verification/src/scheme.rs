//! Routing of submitted lines: whole-line dot commands versus Scheme source.
use vstd::prelude::*;

use crate::text::{chars_of, is_ascii_letter, is_ascii_letter_char, trim_bounds, trimmed};

verus! {

/// The trimmed line without one leading `#`: the text handed to the host
/// dot grammar.
pub open spec fn dot_path_of(line: Seq<char>) -> Seq<char> {
    let t = trimmed(line);
    if t.len() > 0 && t[0] == '#' {
        t.drop_first()
    } else {
        t
    }
}

/// A whole-line dot command: a single trimmed line that, after an optional
/// `#`, starts with `.` followed by an ASCII letter.
pub open spec fn is_dot_command(line: Seq<char>) -> bool {
    let p = dot_path_of(line);
    &&& !trimmed(line).contains('\n')
    &&& p.len() >= 2
    &&& p[0] == '.'
    &&& is_ascii_letter(p[1])
}

/// True when a submitted line is a whole-line dot command (`.my.path…` or
/// `#.my.path…`) that must be routed to the host dot grammar instead of the
/// Scheme reader. Bare dot paths are valid at the terminal, but never inside
/// Scheme parentheses.
pub fn is_dot_command_line(source: &str) -> (b: bool)
    ensures
        b == is_dot_command(source@),
{
    let v = chars_of(source);
    let (start, end) = trim_bounds(&v);
    let ghost t = trimmed(source@);
    let mut i = start;
    while i < end
        invariant
            start <= i <= end <= v@.len(),
            v@.subrange(start as int, end as int) == t,
            t == trimmed(source@),
            forall|j: int| start <= j < i ==> v@[j] != '\n',
        decreases end - i,
    {
        if v[i] == '\n' {
            assert(t[i - start] == '\n');
            assert(t.contains('\n'));
            assert(trimmed(source@).contains('\n'));
            assert(!is_dot_command(source@));
            return false;
        }
        i = i + 1;
    }
    assert(!t.contains('\n')) by {
        assert forall|j: int| 0 <= j < t.len() implies t[j] != '\n' by {
            assert(t[j] == v@[j + start]);
        }
    }
    let p = if start < end && v[start] == '#' {
        start + 1
    } else {
        start
    };
    let ghost path = dot_path_of(source@);
    assert(path =~= v@.subrange(p as int, end as int));
    p < end && end - p >= 2 && v[p] == '.' && is_ascii_letter_char(v[p + 1])
}

/// The command text of a whole-line dot command: the trimmed line without
/// its leading `#`, if it has one.
pub fn dot_line_command(source: &str) -> (r: &str)
    ensures
        r@ == dot_path_of(source@),
{
    let v = chars_of(source);
    let (start, end) = trim_bounds(&v);
    let p = if start < end && v[start] == '#' {
        start + 1
    } else {
        start
    };
    assert(dot_path_of(source@) =~= v@.subrange(p as int, end as int));
    source.substring_char(p, end)
}

} // verus!
