//! Script preparation before evaluation.
use vstd::prelude::*;

use crate::text::{chars_of, find_char, first_index_of};

verus! {

/// `s` with a leading `#!` line removed: everything after the first newline,
/// or nothing when the shebang line is the whole text. Text that does not
/// start with `#!` is kept as it is.
pub open spec fn shebang_stripped(s: Seq<char>) -> Seq<char> {
    if s.len() >= 2 && s[0] == '#' && s[1] == '!' {
        match first_index_of(s, '\n') {
            Some(i) => s.skip(i + 1),
            None => Seq::empty(),
        }
    } else {
        s
    }
}

/// Strip a leading shebang line (`#!…`) if present.
pub fn strip_shebang(source: &str) -> (r: &str)
    ensures
        r@ == shebang_stripped(source@),
{
    let v = chars_of(source);
    if v.len() >= 2 && v[0] == '#' && v[1] == '!' {
        proof {
            crate::text::lemma_first_index_of_props(v@, '\n');
        }
        match find_char(&v, '\n') {
            Some(pos) => source.substring_char(pos + 1, v.len()),
            None => {
                let empty = "";
                proof {
                    reveal_strlit("");
                }
                assert(empty@ =~= Seq::<char>::empty());
                empty
            },
        }
    } else {
        source
    }
}

} // verus!
