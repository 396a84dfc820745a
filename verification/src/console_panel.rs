//! The console panel drawn over the emulated picture: a history of
//! commands and of their output, and an input line whose commands go to
//! the machine exactly as those typed on standard input. Drawing it is
//! the front end's part.

use crate::monitor::{is_white, is_whitespace, parse_command, parsed, MonitorMessage};
use vstd::prelude::*;
use vstd::string::*;

verus! {

/// A line without the carriage return that ended it, if any.
pub open spec fn strip_cr(l: Seq<char>) -> Seq<char> {
    if l.len() > 0 && l.last() == '\r' { l.drop_last() } else { l }
}

/// Reading `s` from the left: the lines already ended by a newline (each
/// without its "\n" or "\r\n"), and the line being read.
pub open spec fn lines_state(s: Seq<char>) -> (Seq<Seq<char>>, Seq<char>)
    decreases s.len(),
{
    if s.len() == 0 {
        (Seq::empty(), Seq::empty())
    } else {
        let (done, cur) = lines_state(s.drop_last());
        if s.last() == '\n' { (done.push(strip_cr(cur)), Seq::empty()) } else { (done, cur.push(s.last())) }
    }
}

/// The lines of `s` as `str::lines` yields them: split after each "\n",
/// "\n" or "\r\n" removed, and no empty line after a final newline.
pub open spec fn text_lines(s: Seq<char>) -> Seq<Seq<char>> {
    let (done, cur) = lines_state(s);
    if cur.len() > 0 { done.push(cur) } else { done }
}

/// The texts of a list of strings.
pub open spec fn texts(v: Seq<String>) -> Seq<Seq<char>> {
    v.map_values(|h: String| h@)
}

/// Whether `s` holds only white space.
fn all_white(s: &str) -> (b: bool)
    ensures
        b == forall|i: int| 0 <= i < s@.len() ==> is_white(#[trigger] s@[i]),
{
    let n = s.unicode_len();
    let mut i: usize = 0;
    while i < n
        invariant
            i <= n,
            n == s@.len(),
            forall|k: int| 0 <= k < i ==> is_white(#[trigger] s@[k]),
        decreases n - i,
    {
        if !is_whitespace(s.get_char(i)) {
            return false;
        }
        i += 1;
    }
    true
}

/// The console panel.
pub struct ConsolePanel {
    /// Lines shown: commands typed (after "> ") and the machine's output.
    pub history: Vec<String>,
    /// The line being typed.
    pub input: String,
    /// The input line asks for the keyboard focus (again at each opening:
    /// the toolkit does not keep it from one frame to the next).
    pub request_focus: bool,
}

impl ConsolePanel {
    /// An empty panel that will take the focus.
    pub fn new() -> (p: ConsolePanel)
        ensures
            p.history@.len() == 0,
            p.input@.len() == 0,
            p.request_focus,
    {
        ConsolePanel { history: Vec::new(), input: String::new(), request_focus: true }
    }

    /// To call when the panel shows again, so that the input line takes the
    /// keyboard focus without a click.
    pub fn request_focus(&mut self)
        ensures
            final(self).request_focus,
            final(self).history@ == old(self).history@,
            final(self).input@ == old(self).input@,
    {
        self.request_focus = true;
    }

    /// Adds the output of a command to the history, line by line; an empty
    /// output adds no blank line.
    pub fn push_output(&mut self, output: &str)
        ensures
            texts(final(self).history@) == texts(old(self).history@) + text_lines(output@),
            final(self).input@ == old(self).input@,
            final(self).request_focus == old(self).request_focus,
    {
        let n = output.unicode_len();
        let ghost sv = output@;
        let ghost h0 = texts(self.history@);
        let mut start: usize = 0;
        let mut i: usize = 0;
        while i < n
            invariant
                i <= n,
                n == sv.len(),
                sv == output@,
                start <= i,
                texts(self.history@) == h0 + lines_state(sv.take(i as int)).0,
                sv.subrange(start as int, i as int) == lines_state(sv.take(i as int)).1,
                self.input@ == old(self).input@,
                self.request_focus == old(self).request_focus,
            decreases n - i,
        {
            let c = output.get_char(i);
            let ghost prev = lines_state(sv.take(i as int));
            proof {
                assert(sv.take(i + 1).drop_last() =~= sv.take(i as int));
                assert(sv.take(i + 1).last() == c);
            }
            if c == '\n' {
                let end = if i > start && output.get_char(i - 1) == '\r' { i - 1 } else { i };
                let line = String::from_str(output.substring_char(start, end));
                let ghost before = self.history@;
                self.history.push(line);
                proof {
                    assert(sv.subrange(start as int, end as int) == strip_cr(prev.1)) by {
                        if i > start && sv[i - 1] == '\r' {
                            assert(prev.1.last() == sv[i - 1]);
                            assert(sv.subrange(start as int, end as int) =~= prev.1.drop_last());
                        }
                    }
                    assert(texts(self.history@) =~= texts(before).push(line@));
                    assert(h0 + lines_state(sv.take(i + 1)).0 =~= (h0 + prev.0).push(strip_cr(prev.1)));
                }
                start = i + 1;
                proof {
                    assert(sv.subrange(start as int, i + 1) =~= Seq::<char>::empty());
                }
            } else {
                proof {
                    assert(sv.subrange(start as int, i + 1) =~= sv.subrange(start as int, i as int).push(c));
                }
            }
            i += 1;
        }
        proof {
            assert(sv.take(n as int) =~= sv);
        }
        if start < n {
            let line = String::from_str(output.substring_char(start, n));
            let ghost before = self.history@;
            self.history.push(line);
            proof {
                assert(texts(self.history@) =~= texts(before).push(line@));
                assert(h0 + text_lines(sv) =~= (h0 + lines_state(sv).0).push(lines_state(sv).1));
            }
        } else {
            proof {
                assert(lines_state(sv).1.len() == 0);
                assert(h0 + text_lines(sv) =~= h0 + lines_state(sv).0);
            }
        }
    }

    /// ENTER on the input line: the line is taken out of the input; unless
    /// it holds only white space, it joins the history after "> " and its
    /// command is returned for the machine. The input line asks for the
    /// focus again (ENTER makes it lose it).
    pub fn submit(&mut self) -> (m: Option<MonitorMessage>)
        ensures
            final(self).input@.len() == 0,
            final(self).request_focus,
            ({
                let line = old(self).input@;
                if forall|i: int| 0 <= i < line.len() ==> is_white(#[trigger] line[i]) {
                    &&& m is None
                    &&& texts(final(self).history@) == texts(old(self).history@)
                } else {
                    &&& m matches Some(msg) && parsed(line, msg)
                    &&& texts(final(self).history@) == texts(old(self).history@).push("> "@ + line)
                }
            }),
    {
        let line = self.input.clone();
        self.input = String::new();
        self.request_focus = true;
        let s = line.as_str();
        if all_white(s) {
            return None;
        }
        proof {
            reveal_strlit("> ");
        }
        let mut shown = String::from_str("> ");
        shown.append(s);
        let ghost before = self.history@;
        self.history.push(shown);
        proof {
            assert(texts(self.history@) =~= texts(before).push(shown@));
        }
        Some(parse_command(s))
    }
}

} // verus!
