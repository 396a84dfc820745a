//! The monitor's command language: a line typed on the console (standard
//! input or the console panel) becomes a command and its two text
//! arguments, the single entry point for whatever changes the machine
//! while it runs.

use crate::cli::same_text;
use vstd::prelude::*;
use vstd::string::*;

verus! {

/// The commands of the monitor.
#[derive(Clone, Copy, Debug, PartialEq, Eq, Structural)]
pub enum MonitorCmd {
    Help,
    Unknown,
    ReadMem,
    WriteMem,
    SearchMem,
    Jump,
    Step,
    StepLine,
    ListBreakpoints,
    AddBreakpoint,
    RemoveBreakpoint,
    Registers,
    Hardware,
    Resume,
    Pause,
    Disassemble,
    AddWatchpoint,
    ListWatchpoints,
    RemoveWatchpoint,
    Disk,
    Blank,
    Tape,
    Snapshot,
    PowerCycle,
    Trace,
    ReadRam,
    Volume,
}

/// A command and its two text arguments, as they travel from the console
/// that reads them to the machine that runs them.
pub type MonitorMessage = (MonitorCmd, String, String);

/// Unicode's White_Space characters, those `char::is_whitespace` accepts.
pub open spec fn is_white(c: char) -> bool {
    ||| '\t' <= c <= '\r'
    ||| c == ' '
    ||| c == '\u{85}'
    ||| c == '\u{A0}'
    ||| c == '\u{1680}'
    ||| '\u{2000}' <= c <= '\u{200A}'
    ||| c == '\u{2028}'
    ||| c == '\u{2029}'
    ||| c == '\u{202F}'
    ||| c == '\u{205F}'
    ||| c == '\u{3000}'
}

/// Whether `c` is White_Space (see `is_white`).
pub fn is_whitespace(c: char) -> (b: bool)
    ensures
        b == is_white(c),
{
    ('\t' <= c && c <= '\r') || c == ' ' || c == '\u{85}' || c == '\u{A0}' || c == '\u{1680}'
        || ('\u{2000}' <= c && c <= '\u{200A}') || c == '\u{2028}' || c == '\u{2029}' || c == '\u{202F}'
        || c == '\u{205F}' || c == '\u{3000}'
}

/// Reading `s` from the left: the words already complete, and the word
/// being read (empty between words).
pub open spec fn split_state(s: Seq<char>) -> (Seq<Seq<char>>, Seq<char>)
    decreases s.len(),
{
    if s.len() == 0 {
        (Seq::empty(), Seq::empty())
    } else {
        let (done, cur) = split_state(s.drop_last());
        let c = s.last();
        if is_white(c) {
            (if cur.len() > 0 { done.push(cur) } else { done }, Seq::empty())
        } else {
            (done, cur.push(c))
        }
    }
}

/// The words of `s`: its maximal runs of non-white characters, in order
/// (what `str::split_whitespace` yields).
pub open spec fn words(s: Seq<char>) -> Seq<Seq<char>> {
    let (done, cur) = split_state(s);
    if cur.len() > 0 { done.push(cur) } else { done }
}

/// Word `i` of `w`, or the empty text past the last one.
pub open spec fn word_or_empty(w: Seq<Seq<char>>, i: int) -> Seq<char> {
    if 0 <= i < w.len() { w[i] } else { Seq::empty() }
}

/// The command named by `name`; `b`, `w` and `m` depend on whether their
/// first (`b`, `w`) or second (`m`) argument is given.
pub open spec fn command_of(name: Seq<char>, arg_empty: bool, arg2_empty: bool) -> MonitorCmd {
    if name == "h"@ || name == "help"@ { MonitorCmd::Help }
    else if name == "r"@ { MonitorCmd::Registers }
    else if name == "p"@ { MonitorCmd::Pause }
    else if name == "g"@ { MonitorCmd::Resume }
    else if name == "hw"@ { MonitorCmd::Hardware }
    else if name == "l"@ { MonitorCmd::StepLine }
    else if name == "n"@ { MonitorCmd::Step }
    else if name == "d"@ { MonitorCmd::Disassemble }
    else if name == "j"@ { MonitorCmd::Jump }
    else if name == "f"@ { MonitorCmd::RemoveBreakpoint }
    else if name == "fw"@ { MonitorCmd::RemoveWatchpoint }
    else if name == "w"@ { if arg_empty { MonitorCmd::ListWatchpoints } else { MonitorCmd::AddWatchpoint } }
    else if name == "b"@ { if arg_empty { MonitorCmd::ListBreakpoints } else { MonitorCmd::AddBreakpoint } }
    else if name == "m"@ { if arg2_empty { MonitorCmd::ReadMem } else { MonitorCmd::WriteMem } }
    else if name == "s"@ { MonitorCmd::SearchMem }
    else if name == "disk"@ { MonitorCmd::Disk }
    else if name == "blank"@ { MonitorCmd::Blank }
    else if name == "tape"@ { MonitorCmd::Tape }
    else if name == "snap"@ { MonitorCmd::Snapshot }
    else if name == "pc"@ { MonitorCmd::PowerCycle }
    else if name == "t"@ { MonitorCmd::Trace }
    else if name == "mr"@ { MonitorCmd::ReadRam }
    else if name == "vol"@ || name == "volume"@ { MonitorCmd::Volume }
    else { MonitorCmd::Unknown }
}

/// Span `sp` of `s` holds the text `w`.
pub open spec fn span_holds(s: Seq<char>, sp: (usize, usize), w: Seq<char>) -> bool {
    sp.0 <= sp.1 <= s.len() && s.subrange(sp.0 as int, sp.1 as int) == w
}

/// The spans locate the texts `ws` in `s`, one for one.
pub open spec fn spans_hold(s: Seq<char>, spans: Seq<(usize, usize)>, ws: Seq<Seq<char>>) -> bool {
    &&& spans.len() == ws.len()
    &&& forall|k: int| 0 <= k < spans.len() ==> #[trigger] span_holds(s, spans[k], ws[k])
}

/// The words of `s`, each as the span of its characters.
fn word_spans(s: &str) -> (spans: Vec<(usize, usize)>)
    ensures
        spans_hold(s@, spans@, words(s@)),
{
    let n = s.unicode_len();
    let ghost sv = s@;
    let mut spans: Vec<(usize, usize)> = Vec::new();
    let mut start: usize = 0;
    let mut i: usize = 0;
    while i < n
        invariant
            i <= n,
            n == sv.len(),
            sv == s@,
            start <= i,
            spans_hold(sv, spans@, split_state(sv.take(i as int)).0),
            sv.subrange(start as int, i as int) == split_state(sv.take(i as int)).1,
        decreases n - i,
    {
        let c = s.get_char(i);
        let ghost prev = split_state(sv.take(i as int));
        proof {
            assert(sv.take(i + 1).drop_last() =~= sv.take(i as int));
            assert(sv.take(i + 1).last() == c);
        }
        let ghost old_spans = spans@;
        if is_whitespace(c) {
            if start < i {
                spans.push((start, i));
            }
            proof {
                let next = split_state(sv.take(i + 1));
                assert(prev.1.len() == i - start);
                assert forall|k: int| 0 <= k < spans@.len() implies #[trigger] span_holds(sv, spans@[k], next.0[k]) by {
                    if k < old_spans.len() {
                        assert(spans@[k] == old_spans[k]);
                        assert(span_holds(sv, old_spans[k], prev.0[k]));
                    }
                }
            }
            start = i + 1;
            proof {
                assert(sv.subrange(start as int, i + 1) =~= Seq::<char>::empty());
            }
        } else {
            proof {
                assert(sv.subrange(start as int, i + 1) =~= sv.subrange(start as int, i as int).push(c));
            }
        }
        i += 1;
    }
    proof {
        assert(sv.take(n as int) =~= sv);
    }
    let ghost before = spans@;
    let ghost fin = split_state(sv);
    if start < n {
        spans.push((start, n));
        proof {
            assert(fin.1.len() == n - start);
            assert forall|k: int| 0 <= k < spans@.len() implies #[trigger] span_holds(sv, spans@[k], words(sv)[k]) by {
                if k < before.len() {
                    assert(spans@[k] == before[k]);
                    assert(span_holds(sv, before[k], fin.0[k]));
                }
            }
        }
    } else {
        proof {
            assert(fin.1.len() == 0);
        }
    }
    spans
}

/// Word `i` of `s` as a `String`, empty past the last word.
fn word_at(s: &str, spans: &Vec<(usize, usize)>, i: usize) -> (w: String)
    requires
        spans_hold(s@, spans@, words(s@)),
    ensures
        w@ == word_or_empty(words(s@), i as int),
{
    if i < spans.len() {
        let (a, b) = spans[i];
        proof {
            assert(span_holds(s@, spans@[i as int], words(s@)[i as int]));
        }
        String::from_str(s.substring_char(a, b))
    } else {
        proof {
            reveal_strlit("");
        }
        String::from_str("")
    }
}

/// `m` is the command of `line` and its two arguments (see
/// `parse_command`).
pub open spec fn parsed(line: Seq<char>, m: MonitorMessage) -> bool {
    &&& m.1@ == word_or_empty(words(line), 1)
    &&& m.2@ == word_or_empty(words(line), 2)
    &&& m.0 == command_of(word_or_empty(words(line), 0), m.1@.len() == 0, m.2@.len() == 0)
}

/// Turns a typed line into a command and its two arguments: the words of
/// the line are split on white space; the first names the command (see
/// `command_of`), the next two are its arguments (empty when missing).
pub fn parse_command(line: &str) -> (m: MonitorMessage)
    ensures
        parsed(line@, m),
{
    let spans = word_spans(line);
    let name = word_at(line, &spans, 0);
    let arg = word_at(line, &spans, 1);
    let arg2 = word_at(line, &spans, 2);
    let arg_empty = arg.as_str().unicode_len() == 0;
    let arg2_empty = arg2.as_str().unicode_len() == 0;
    let n = name.as_str();
    let command = if same_text(n, "h") || same_text(n, "help") {
        MonitorCmd::Help
    } else if same_text(n, "r") {
        MonitorCmd::Registers
    } else if same_text(n, "p") {
        MonitorCmd::Pause
    } else if same_text(n, "g") {
        MonitorCmd::Resume
    } else if same_text(n, "hw") {
        MonitorCmd::Hardware
    } else if same_text(n, "l") {
        MonitorCmd::StepLine
    } else if same_text(n, "n") {
        MonitorCmd::Step
    } else if same_text(n, "d") {
        MonitorCmd::Disassemble
    } else if same_text(n, "j") {
        MonitorCmd::Jump
    } else if same_text(n, "f") {
        MonitorCmd::RemoveBreakpoint
    } else if same_text(n, "fw") {
        MonitorCmd::RemoveWatchpoint
    } else if same_text(n, "w") {
        if arg_empty { MonitorCmd::ListWatchpoints } else { MonitorCmd::AddWatchpoint }
    } else if same_text(n, "b") {
        if arg_empty { MonitorCmd::ListBreakpoints } else { MonitorCmd::AddBreakpoint }
    } else if same_text(n, "m") {
        if arg2_empty { MonitorCmd::ReadMem } else { MonitorCmd::WriteMem }
    } else if same_text(n, "s") {
        MonitorCmd::SearchMem
    } else if same_text(n, "disk") {
        MonitorCmd::Disk
    } else if same_text(n, "blank") {
        MonitorCmd::Blank
    } else if same_text(n, "tape") {
        MonitorCmd::Tape
    } else if same_text(n, "snap") {
        MonitorCmd::Snapshot
    } else if same_text(n, "pc") {
        MonitorCmd::PowerCycle
    } else if same_text(n, "t") {
        MonitorCmd::Trace
    } else if same_text(n, "mr") {
        MonitorCmd::ReadRam
    } else if same_text(n, "vol") || same_text(n, "volume") {
        MonitorCmd::Volume
    } else {
        MonitorCmd::Unknown
    };
    (command, arg, arg2)
}

} // verus!
