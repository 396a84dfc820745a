//! Editing the text of the configuration file: one TOML section is
//! rewritten while everything else, comments included, stays as the user
//! wrote it. (Serialising the whole configuration would be shorter, but
//! would rewrite a hand-edited file from end to end.)

use crate::console_panel::{lines_state, strip_cr, text_lines};
use crate::monitor::{is_white, is_whitespace, span_holds, spans_hold};
use vstd::prelude::*;
use vstd::string::*;

verus! {

/// `l` without its leading white space.
pub open spec fn trim_start(l: Seq<char>) -> Seq<char>
    decreases l.len(),
{
    if l.len() > 0 && is_white(l[0]) { trim_start(l.drop_first()) } else { l }
}

/// `l` without its trailing white space.
pub open spec fn trim_end(l: Seq<char>) -> Seq<char>
    decreases l.len(),
{
    if l.len() > 0 && is_white(l.last()) { trim_end(l.drop_last()) } else { l }
}

/// `l` without white space at either end.
pub open spec fn trim(l: Seq<char>) -> Seq<char> {
    trim_end(trim_start(l))
}

/// Reading the lines from the top: those kept, and whether the body of the
/// section headed `header` is being skipped. Its header line goes, and
/// every line after it until the next section header.
pub open spec fn keep_state(lines: Seq<Seq<char>>, header: Seq<char>) -> (Seq<Seq<char>>, bool)
    decreases lines.len(),
{
    if lines.len() == 0 {
        (Seq::empty(), false)
    } else {
        let (kept, skipping) = keep_state(lines.drop_last(), header);
        let line = lines.last();
        let t = trim(line);
        if t == header {
            (kept, true)
        } else if skipping && !(t.len() > 0 && t[0] == '[') {
            (kept, true)
        } else {
            (kept.push(line), false)
        }
    }
}

/// `ls` without the blank lines at its end.
pub open spec fn drop_blank_tail(ls: Seq<Seq<char>>) -> Seq<Seq<char>>
    decreases ls.len(),
{
    if ls.len() > 0 && trim(ls.last()).len() == 0 { drop_blank_tail(ls.drop_last()) } else { ls }
}

/// The lines joined by newlines.
pub open spec fn join_lines(ls: Seq<Seq<char>>) -> Seq<char>
    decreases ls.len(),
{
    if ls.len() == 0 {
        Seq::empty()
    } else if ls.len() == 1 {
        ls[0]
    } else {
        join_lines(ls.drop_last()) + seq!['\n'] + ls.last()
    }
}

/// The text `content` with the section `section` replaced by `body`: the
/// old section (header and body) taken out wherever it stood, blank lines
/// at the end dropped, then after a blank line the section rewritten at
/// the end of the file (the order of TOML sections does not matter). A
/// comment right before the old section stays with what followed it.
pub open spec fn section_replaced(content: Seq<char>, section: Seq<char>, body: Seq<char>) -> Seq<char> {
    let header = seq!['['] + section + seq![']'];
    let kept = drop_blank_tail(keep_state(text_lines(content), header).0);
    let joined = join_lines(kept);
    (if joined.len() > 0 { joined + seq!['\n', '\n'] } else { joined }) + header + seq!['\n'] + trim_end(body)
        + seq!['\n']
}

/// Every span lies within the first `n` characters.
pub open spec fn spans_within(v: Seq<(usize, usize)>, n: int) -> bool {
    forall|k: int| 0 <= k < v.len() ==> #[trigger] v[k].0 <= v[k].1 <= n
}

/// The span of `s` between `a` and `b` without white space at either end.
fn trim_span(s: &str, a: usize, b: usize) -> (r: (usize, usize))
    requires
        a <= b <= s@.len(),
    ensures
        a <= r.0 <= r.1 <= b,
        s@.subrange(r.0 as int, r.1 as int) == trim(s@.subrange(a as int, b as int)),
{
    let mut i = a;
    while i < b && is_whitespace(s.get_char(i))
        invariant
            a <= i <= b,
            b <= s@.len(),
            trim_start(s@.subrange(a as int, b as int)) == trim_start(s@.subrange(i as int, b as int)),
        decreases b - i,
    {
        proof {
            assert(s@.subrange(i as int, b as int).drop_first() =~= s@.subrange(i + 1, b as int));
        }
        i += 1;
    }
    let mut j = b;
    while j > i && is_whitespace(s.get_char(j - 1))
        invariant
            a <= i <= j <= b,
            b <= s@.len(),
            trim_start(s@.subrange(a as int, b as int)) == s@.subrange(i as int, b as int),
            trim_end(s@.subrange(i as int, b as int)) == trim_end(s@.subrange(i as int, j as int)),
        decreases j - i,
    {
        proof {
            assert(s@.subrange(i as int, j as int).drop_last() =~= s@.subrange(i as int, j - 1));
        }
        j -= 1;
    }
    (i, j)
}

/// The lines of `s` (see `text_lines`), each as a span.
fn line_spans(s: &str) -> (spans: Vec<(usize, usize)>)
    ensures
        spans_hold(s@, spans@, text_lines(s@)),
{
    let n = s.unicode_len();
    let ghost sv = s@;
    let mut spans: Vec<(usize, usize)> = Vec::new();
    let mut start: usize = 0;
    let mut i: usize = 0;
    while i < n
        invariant
            i <= n,
            n == sv.len(),
            sv == s@,
            start <= i,
            spans_hold(sv, spans@, lines_state(sv.take(i as int)).0),
            sv.subrange(start as int, i as int) == lines_state(sv.take(i as int)).1,
        decreases n - i,
    {
        let c = s.get_char(i);
        let ghost prev = lines_state(sv.take(i as int));
        proof {
            assert(sv.take(i + 1).drop_last() =~= sv.take(i as int));
            assert(sv.take(i + 1).last() == c);
        }
        if c == '\n' {
            let end = if i > start && s.get_char(i - 1) == '\r' { i - 1 } else { i };
            let ghost old_spans = spans@;
            spans.push((start, end));
            proof {
                assert(sv.subrange(start as int, end as int) == strip_cr(prev.1)) by {
                    if i > start && sv[i - 1] == '\r' {
                        assert(prev.1.last() == sv[i - 1]);
                        assert(sv.subrange(start as int, end as int) =~= prev.1.drop_last());
                    }
                }
                let next = lines_state(sv.take(i + 1));
                assert forall|k: int| 0 <= k < spans@.len() implies #[trigger] span_holds(sv, spans@[k], next.0[k]) by {
                    if k < old_spans.len() {
                        assert(span_holds(sv, old_spans[k], prev.0[k]));
                    }
                }
            }
            start = i + 1;
            proof {
                assert(sv.subrange(start as int, i + 1) =~= Seq::<char>::empty());
            }
        } else {
            proof {
                assert(sv.subrange(start as int, i + 1) =~= sv.subrange(start as int, i as int).push(c));
            }
        }
        i += 1;
    }
    proof {
        assert(sv.take(n as int) =~= sv);
    }
    let ghost before = spans@;
    let ghost fin = lines_state(sv);
    if start < n {
        spans.push((start, n));
        proof {
            assert forall|k: int| 0 <= k < spans@.len() implies #[trigger] span_holds(sv, spans@[k], text_lines(sv)[k]) by {
                if k < before.len() {
                    assert(span_holds(sv, before[k], fin.0[k]));
                }
            }
        }
    } else {
        proof {
            assert(fin.1.len() == 0);
        }
    }
    spans
}

/// Whether the span (a, b) of `s` holds exactly `t`.
fn span_is(s: &str, a: usize, b: usize, t: &str) -> (r: bool)
    requires
        a <= b <= s@.len(),
    ensures
        r == (s@.subrange(a as int, b as int) == t@),
{
    let n = t.unicode_len();
    if b - a != n {
        return false;
    }
    let mut k: usize = 0;
    while k < n
        invariant
            k <= n,
            n == t@.len(),
            b - a == n,
            b <= s@.len(),
            forall|m: int| 0 <= m < k ==> s@[a + m] == t@[m],
        decreases n - k,
    {
        if s.get_char(a + k) != t.get_char(k) {
            assert(s@.subrange(a as int, b as int)[k as int] != t@[k as int]);
            return false;
        }
        k += 1;
    }
    assert(s@.subrange(a as int, b as int) =~= t@);
    true
}

/// Replaces the body of the TOML section `section` of `content` by
/// `body`, or adds the section when it is missing (see
/// `section_replaced`).
pub fn replace_section(content: &str, section: &str, body: &str) -> (out: String)
    ensures
        out@ == section_replaced(content@, section@, body@),
{
    proof {
        reveal_strlit("[");
        reveal_strlit("]");
    }
    let mut header = String::from_str("[");
    header.append(section);
    header.append("]");
    let ghost hv = seq!['['] + section@ + seq![']'];
    assert(header@ =~= hv);
    let h = header.as_str();

    let spans = line_spans(content);
    let ghost lines = text_lines(content@);
    let mut kept: Vec<(usize, usize)> = Vec::new();
    let mut skipping = false;
    let mut i: usize = 0;
    while i < spans.len()
        invariant
            i <= spans@.len(),
            spans_hold(content@, spans@, lines),
            h@ == hv,
            spans_hold(content@, kept@, keep_state(lines.take(i as int), hv).0),
            skipping == keep_state(lines.take(i as int), hv).1,
        decreases spans@.len() - i,
    {
        let (a, b) = spans[i];
        proof {
            assert(span_holds(content@, spans@[i as int], lines[i as int]));
            assert(lines.take(i + 1).drop_last() =~= lines.take(i as int));
            assert(lines.take(i + 1).last() == lines[i as int]);
        }
        let (ta, tb) = trim_span(content, a, b);
        let ghost t = trim(lines[i as int]);
        assert(content@.subrange(ta as int, tb as int) == t);
        let ghost old_kept = kept@;
        let ghost prev = keep_state(lines.take(i as int), hv);
        if span_is(content, ta, tb, h) {
            skipping = true;
        } else if skipping && !(tb > ta && content.get_char(ta) == '[') {
            proof {
                if tb > ta {
                    assert(t[0] == content@[ta as int]);
                }
            }
        } else {
            proof {
                if tb > ta {
                    assert(t[0] == content@[ta as int]);
                }
            }
            kept.push((a, b));
            skipping = false;
            proof {
                let next = keep_state(lines.take(i + 1), hv);
                assert forall|k: int| 0 <= k < kept@.len() implies #[trigger] span_holds(content@, kept@[k], next.0[k]) by {
                    if k < old_kept.len() {
                        assert(span_holds(content@, old_kept[k], prev.0[k]));
                    }
                }
            }
        }
        i += 1;
    }
    proof {
        assert(lines.take(spans@.len() as int) =~= lines);
    }
    let ghost all_kept = keep_state(lines, hv).0;

    // Blank lines at the end go.
    let mut count = kept.len();
    proof {
        assert(all_kept.take(count as int) =~= all_kept);
        assert forall|k: int| 0 <= k < kept@.len() implies #[trigger] kept@[k].0 <= kept@[k].1 <= content@.len() by {
            assert(span_holds(content@, kept@[k], all_kept[k]));
        }
        assert(spans_within(kept@, content@.len() as int));
    }
    while count > 0 && last_is_blank(content, &kept, count)
        invariant
            count <= kept@.len(),
            spans_hold(content@, kept@, all_kept),
            spans_within(kept@, content@.len() as int),
            drop_blank_tail(all_kept) == drop_blank_tail(all_kept.take(count as int)),
        decreases count,
    {
        proof {
            assert(span_holds(content@, kept@[count - 1], all_kept[count - 1]));
        }
        proof {
            assert(all_kept.take(count as int).last() == all_kept[count - 1]);
            assert(all_kept.take(count as int).drop_last() =~= all_kept.take(count - 1));
        }
        count -= 1;
    }
    let ghost final_lines = all_kept.take(count as int);
    proof {
        if count > 0 {
            assert(final_lines.last() == all_kept[count - 1]);
            assert(span_holds(content@, kept@[count - 1], all_kept[count - 1]));
        }
        assert(drop_blank_tail(final_lines) == final_lines);
    }

    // Joined by newlines.
    let mut out = String::new();
    let mut j: usize = 0;
    while j < count
        invariant
            j <= count,
            count <= kept@.len(),
            spans_hold(content@, kept@, all_kept),
            final_lines == all_kept.take(count as int),
            out@ == join_lines(final_lines.take(j as int)),
        decreases count - j,
    {
        let (a, b) = kept[j];
        proof {
            assert(span_holds(content@, kept@[j as int], all_kept[j as int]));
            assert(final_lines.take(j + 1).drop_last() =~= final_lines.take(j as int));
            assert(final_lines.take(j + 1).last() == all_kept[j as int]);
            reveal_strlit("\n");
        }
        if j > 0 {
            out.append("\n");
        }
        out.append(content.substring_char(a, b));
        proof {
            if j == 0 {
                assert(final_lines.take(1)[0] == all_kept[0]);
            }
            assert(out@ =~= join_lines(final_lines.take(j + 1)));
        }
        j += 1;
    }
    proof {
        assert(final_lines.take(count as int) =~= final_lines);
        reveal_strlit("\n\n");
        reveal_strlit("\n");
    }
    let ghost joined = out@;
    if out.as_str().unicode_len() > 0 {
        out.append("\n\n");
    }
    out.append(h);
    out.append("\n");
    let bn = body.unicode_len();
    let (_, body_end) = trim_end_span(body, bn);
    out.append(body.substring_char(0, body_end));
    out.append("\n");
    proof {
        assert(out@ =~= section_replaced(content@, section@, body@));
    }
    out
}

/// Whether line `count - 1` of the kept lines is blank.
fn last_is_blank(content: &str, kept: &Vec<(usize, usize)>, count: usize) -> (r: bool)
    requires
        0 < count <= kept@.len(),
        spans_within(kept@, content@.len() as int),
    ensures
        r == (trim(content@.subrange(kept@[count - 1].0 as int, kept@[count - 1].1 as int)).len() == 0),
{
    let (a, b) = kept[count - 1];
    let (ta, tb) = trim_span(content, a, b);
    ta == tb
}

/// The span of `s` up to `b` without its trailing white space.
fn trim_end_span(s: &str, b: usize) -> (r: (usize, usize))
    requires
        b == s@.len(),
    ensures
        r.0 == 0,
        r.1 <= b,
        s@.subrange(0, r.1 as int) == trim_end(s@),
{
    let mut j = b;
    assert(s@.subrange(0, b as int) =~= s@);
    while j > 0 && is_whitespace(s.get_char(j - 1))
        invariant
            j <= b,
            b == s@.len(),
            trim_end(s@) == trim_end(s@.subrange(0, j as int)),
        decreases j,
    {
        proof {
            assert(s@.subrange(0, j as int).drop_last() =~= s@.subrange(0, j - 1));
        }
        j -= 1;
    }
    (0, j)
}

} // verus!
