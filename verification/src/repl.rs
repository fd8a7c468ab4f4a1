//! Line handling of the interactive REPL: multi-line expressions are
//! buffered until their parentheses balance; quit commands end the session;
//! Ctrl-C clears the buffer.
use vstd::prelude::*;

use crate::text::{chars_of, string_from_chars, trim_bounds, trimmed};

verus! {

/// Prompt at the start of an expression.
pub const PROMPT: &'static str = "zscheme> ";

/// Prompt while an expression is still open.
pub const PROMPT_CONT: &'static str = "    ... ";

/// Opening minus closing parentheses in `s`.
pub open spec fn paren_balance(s: Seq<char>) -> int
    decreases s.len(),
{
    if s.len() == 0 {
        0
    } else {
        paren_balance(s.drop_last()) + if s.last() == '(' {
            1int
        } else if s.last() == ')' {
            -1int
        } else {
            0int
        }
    }
}

/// The balance of a line counts its parentheses and nothing else: the number
/// of `(` minus the number of `)`, whatever other characters (quotes among
/// them) stand around them.
pub proof fn paren_balance_counts_parentheses(s: Seq<char>)
    ensures
        paren_balance(s) == s.filter(|c: char| c == '(').len() - s.filter(|c: char| c == ')').len(),
    decreases s.len(),
{
    reveal(Seq::filter);
    if s.len() > 0 {
        paren_balance_counts_parentheses(s.drop_last());
    }
}

/// The single-line commands that end the session.
pub open spec fn is_quit_command(t: Seq<char>) -> bool {
    t == ":quit"@ || t == ":q"@ || t == ":exit"@ || t == "(exit)"@
}

/// The expression being typed: the lines so far (each followed by a
/// newline) and how many parentheses are still open.
pub struct LineReader {
    buffer: Vec<char>,
    depth: i128,
}

/// What to do after a line was entered.
#[derive(Debug, PartialEq, Eq)]
pub enum LineAction {
    /// End the session.
    Quit,
    /// Read the next line.
    Continue,
    /// Evaluate this complete expression, then read the next line.
    Submit(String),
}

/// The handling of an entered line: whether to add it to the history, and
/// what to do next.
#[derive(Debug, PartialEq, Eq)]
pub struct LineResult {
    pub remember: bool,
    pub action: LineAction,
}

impl LineReader {
    #[verifier::type_invariant]
    spec fn inv(self) -> bool {
        &&& self.buffer@.len() == 0 ==> self.depth == 0
        &&& self.buffer@.len() > 0 ==> 0 < self.depth <= self.buffer@.len()
    }

    /// The text of the expression typed so far.
    pub closed spec fn text(self) -> Seq<char> {
        self.buffer@
    }

    /// How many parentheses are still open.
    pub closed spec fn open_parens(self) -> int {
        self.depth as int
    }

    /// An empty reader.
    pub fn new() -> (r: Self)
        ensures
            r.text() == Seq::<char>::empty(),
            r.open_parens() == 0,
    {
        LineReader { buffer: Vec::new(), depth: 0 }
    }

    /// Whether no expression is being typed.
    pub fn is_empty(&self) -> (b: bool)
        ensures
            b == (self.text().len() == 0),
    {
        self.buffer.len() == 0
    }

    /// The prompt to show: the continuation prompt while an expression is
    /// open.
    pub fn prompt(&self) -> (p: &'static str)
        ensures
            p@ == if self.text().len() == 0 {
                PROMPT@
            } else {
                PROMPT_CONT@
            },
    {
        if self.buffer.len() == 0 {
            PROMPT
        } else {
            PROMPT_CONT
        }
    }

    /// Ctrl-C: drop the expression being typed. Returns whether there was
    /// one.
    pub fn interrupt(&mut self) -> (had: bool)
        ensures
            had == (old(self).text().len() > 0),
            final(self).text() == Seq::<char>::empty(),
            final(self).open_parens() == 0,
    {
        let had = self.buffer.len() > 0;
        *self = LineReader { buffer: Vec::new(), depth: 0 };
        had
    }

    /// Handle one entered line.
    ///
    /// A non-blank line that starts an expression is remembered in the
    /// history. At the start of an expression, a quit command ends the
    /// session. Otherwise the line and a newline are added to the expression
    /// and the open parentheses counted; once none are open, the trimmed
    /// expression is submitted (unless it is blank) and a new one begins.
    #[verifier::loop_isolation(false)]
    pub fn feed(&mut self, line: &str) -> (r: LineResult)
        ensures
            r.remember == (old(self).text().len() == 0 && trimmed(line@).len() > 0),
            ({
                let depth = old(self).open_parens() + paren_balance(line@);
                let text = old(self).text() + line@ + seq!['\n'];
                if old(self).text().len() == 0 && is_quit_command(trimmed(line@)) {
                    &&& r.action is Quit
                    &&& final(self).text() == old(self).text()
                    &&& final(self).open_parens() == old(self).open_parens()
                } else if depth > 0 {
                    &&& r.action is Continue
                    &&& final(self).text() == text
                    &&& final(self).open_parens() == depth
                } else {
                    &&& final(self).text() == Seq::<char>::empty()
                    &&& final(self).open_parens() == 0
                    &&& if trimmed(text).len() == 0 {
                        r.action is Continue
                    } else {
                        r.action matches LineAction::Submit(s) && s@ == trimmed(text)
                    }
                }
            }),
    {
        proof {
            use_type_invariant(&*self);
        }
        let v = chars_of(line);
        let (s, e) = trim_bounds(&v);
        let at_start = self.buffer.len() == 0;
        let remember = at_start && s < e;
        if at_start {
            let t = line.substring_char(s, e);
            let cmd = String::from_str(t);
            let quit = cmd.eq(&String::from_str(":quit")) || cmd.eq(&String::from_str(":q"))
                || cmd.eq(&String::from_str(":exit")) || cmd.eq(&String::from_str("(exit)"));
            if quit {
                return LineResult { remember, action: LineAction::Quit };
            }
        }
        // Copy the expression so far, then add the line and its newline.

        let mut buf: Vec<char> = Vec::new();
        let mut i: usize = 0;
        while i < self.buffer.len()
            invariant
                i <= self.buffer@.len(),
                buf@ == self.buffer@.take(i as int),
            decreases self.buffer@.len() - i,
        {
            buf.push(self.buffer[i]);
            i = i + 1;
            assert(buf@ =~= self.buffer@.take(i as int));
        }
        assert(self.buffer@.take(self.buffer@.len() as int) =~= self.buffer@);
        let mut depth: i128 = self.depth;
        let ghost start = buf@;
        let mut k: usize = 0;
        while k < v.len()
            invariant
                k <= v@.len(),
                v@ == line@,
                buf@ == start + v@.take(k as int),
                depth == old(self).depth + paren_balance(v@.take(k as int)),
                old(self).depth >= 0,
                old(self).depth <= start.len(),
                -(k as int) <= paren_balance(v@.take(k as int)) <= k,
            decreases v@.len() - k,
        {
            let c = v[k];
            assert(v@.take(k + 1).drop_last() =~= v@.take(k as int));
            if c == '(' {
                depth = depth + 1;
            } else if c == ')' {
                depth = depth - 1;
            }
            buf.push(c);
            k = k + 1;
            assert(buf@ =~= start + v@.take(k as int));
        }
        assert(v@.take(v@.len() as int) =~= v@);
        buf.push('\n');
        assert(buf@ =~= old(self).text() + line@ + seq!['\n']);
        if depth <= 0 {
            let (a, b) = trim_bounds(&buf);
            let mut src: Vec<char> = Vec::new();
            let mut j: usize = a;
            while j < b
                invariant
                    a <= j <= b <= buf@.len(),
                    src@ == buf@.subrange(a as int, j as int),
                decreases b - j,
            {
                src.push(buf[j]);
                j = j + 1;
                assert(src@ =~= buf@.subrange(a as int, j as int));
            }
            *self = LineReader { buffer: Vec::new(), depth: 0 };
            if a == b {
                LineResult { remember, action: LineAction::Continue }
            } else {
                LineResult { remember, action: LineAction::Submit(string_from_chars(&src)) }
            }
        } else {
            *self = LineReader { buffer: buf, depth };
            LineResult { remember, action: LineAction::Continue }
        }
    }
}

} // verus!
