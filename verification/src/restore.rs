//! Rebuilding the run registry from persistence lines in earlier tool outputs.

use vstd::prelude::*;

use crate::service::WORKFLOW_RUN_MARKER;
use crate::source::{first_at_or_after, lemma_first_at_or_after};
use crate::text::{chars_of, string_of_range};

verus! {

/// A line without the carriage return of a `\r\n` ending.
pub open spec fn strip_cr(line: Seq<char>) -> Seq<char> {
    if line.len() > 0 && line.last() == '\r' {
        line.drop_last()
    } else {
        line
    }
}

/// The lines of `t` from position `i`, as `str::lines` gives them: split at
/// line feeds, a carriage return before a line feed dropped, and no empty
/// line after a final line feed.
pub open spec fn lines_from(t: Seq<char>, i: int) -> Seq<Seq<char>>
    decreases t.len() - i,
{
    if i < 0 || i >= t.len() {
        Seq::empty()
    } else {
        match first_at_or_after(t, '\n', i) {
            None => seq![t.subrange(i, t.len() as int)],
            Some(j) => {
                proof {
                    lemma_first_at_or_after(t, '\n', i);
                }
                seq![strip_cr(t.subrange(i, j))] + lines_from(t, j + 1)
            },
        }
    }
}

pub open spec fn text_lines(t: Seq<char>) -> Seq<Seq<char>> {
    lines_from(t, 0)
}

/// What follows the marker on a persistence line.
pub open spec fn marker_payload(line: Seq<char>) -> Option<Seq<char>> {
    let m = WORKFLOW_RUN_MARKER@;
    if m.len() <= line.len() && line.subrange(0, m.len() as int) == m {
        Some(line.subrange(m.len() as int, line.len() as int))
    } else {
        None
    }
}

/// The payloads of the persistence lines among `lines`, last line first.
pub open spec fn payloads_last_first(lines: Seq<Seq<char>>) -> Seq<Seq<char>>
    decreases lines.len(),
{
    if lines.len() == 0 {
        Seq::empty()
    } else {
        let rest = payloads_last_first(lines.drop_last());
        match marker_payload(lines.last()) {
            Some(p) => seq![p] + rest,
            None => rest,
        }
    }
}

/// The payloads of all persistence lines in the outputs `texts`, newest
/// output first and, within an output, last line first.
pub open spec fn run_marker_payloads(texts: Seq<Seq<char>>) -> Seq<Seq<char>>
    decreases texts.len(),
{
    if texts.len() == 0 {
        Seq::empty()
    } else {
        payloads_last_first(text_lines(texts.last())) + run_marker_payloads(texts.drop_last())
    }
}

/// The views of some strings.
pub open spec fn views(v: Seq<String>) -> Seq<Seq<char>> {
    v.map_values(|s: String| s@)
}

/// The lines of a text.
pub fn lines_of(text: &str) -> (r: Vec<String>)
    ensures
        views(r@) == text_lines(text@),
{
    let chars = chars_of(text);
    let t = chars.as_slice();
    let n = t.len();
    let mut out: Vec<String> = Vec::new();
    let mut i: usize = 0;
    while i < n
        invariant
            n == t@.len(),
            t@ == text@,
            0 <= i <= n,
            views(out@) + lines_from(t@, i as int) == text_lines(t@),
        decreases n - i,
    {
        let mut j = i;
        while j < n && t[j] != '\n'
            invariant
                n == t@.len(),
                i <= j <= n,
                first_at_or_after(t@, '\n', j as int) == first_at_or_after(t@, '\n', i as int),
            decreases n - j,
        {
            j = j + 1;
        }
        let ghost before = views(out@);
        if j >= n {
            let line = string_of_range(t, i, n);
            out.push(line);
            proof {
                assert(views(out@) =~= before.push(line@));
                assert(lines_from(t@, i as int) == seq![t@.subrange(i as int, n as int)]);
                assert(lines_from(t@, n as int) =~= Seq::<Seq<char>>::empty());
                assert(views(out@) + lines_from(t@, n as int) =~= before + lines_from(t@, i as int));
            }
            i = n;
        } else {
            let end = if j > i && t[j - 1] == '\r' {
                j - 1
            } else {
                j
            };
            let line = string_of_range(t, i, end);
            out.push(line);
            proof {
                assert(line@ == strip_cr(t@.subrange(i as int, j as int)));
                assert(views(out@) =~= before.push(line@));
                assert(views(out@) + lines_from(t@, j + 1) =~= before + lines_from(t@, i as int));
            }
            i = j + 1;
        }
    }
    proof {
        assert(lines_from(t@, i as int) =~= Seq::<Seq<char>>::empty());
        assert(views(out@) + Seq::<Seq<char>>::empty() =~= views(out@));
    }
    out
}

/// What follows the marker on a persistence line, if it is one.
pub fn payload_of_line(line: &String) -> (r: Option<String>)
    ensures
        match marker_payload(line@) {
            None => r is None,
            Some(p) => r matches Some(s) && s@ == p,
        },
{
    let chars = chars_of(line.as_str());
    let marker = chars_of(WORKFLOW_RUN_MARKER);
    let m = marker.len();
    if m > chars.len() {
        return None;
    }
    if !crate::properties::range_equals(chars.as_slice(), 0, m, marker.as_slice()) {
        return None;
    }
    Some(string_of_range(chars.as_slice(), m, chars.len()))
}

/// The payloads of all persistence lines in tool outputs listed oldest first:
/// newest output first and, within an output, last line first.
pub fn marker_payloads(texts: &Vec<String>) -> (r: Vec<String>)
    ensures
        views(r@) == run_marker_payloads(views(texts@)),
{
    let mut out: Vec<String> = Vec::new();
    let mut k = texts.len();
    proof {
        assert(texts@.take(texts@.len() as int) =~= texts@);
        assert(views(out@) =~= Seq::<Seq<char>>::empty());
        assert(Seq::<Seq<char>>::empty() + run_marker_payloads(views(texts@)) =~= run_marker_payloads(views(texts@)));
    }
    while k > 0
        invariant
            0 <= k <= texts@.len(),
            views(out@) + run_marker_payloads(views(texts@.take(k as int))) == run_marker_payloads(
                views(texts@),
            ),
        decreases k,
    {
        k = k - 1;
        let lines = lines_of(texts[k].as_str());
        let ghost before = views(out@);
        let ghost lv = views(lines@);
        let mut m = lines.len();
        proof {
            assert(lv.take(lv.len() as int) =~= lv);
        }
        while m > 0
            invariant
                0 <= m <= lines@.len(),
                lv == views(lines@),
                views(out@) + payloads_last_first(lv.take(m as int)) == before + payloads_last_first(lv),
            decreases m,
        {
            m = m - 1;
            let ghost mid = views(out@);
            proof {
                assert(lv.take(m + 1).drop_last() =~= lv.take(m as int));
                assert(lv.take(m + 1).last() == lines@[m as int]@);
            }
            match payload_of_line(&lines[m]) {
                Some(p) => {
                    out.push(p);
                    proof {
                        assert(views(out@) =~= mid.push(p@));
                        assert(views(out@) + payloads_last_first(lv.take(m as int)) =~= mid + (seq![p@] + payloads_last_first(lv.take(m as int))));
                    }
                },
                None => {
                    proof {
                        assert(views(out@) =~= mid);
                    }
                },
            }
        }
        proof {
            assert(lv.take(0) =~= Seq::<Seq<char>>::empty());
            assert(lv.take(lv.len() as int) =~= lv);
            assert(views(texts@.take(k + 1)).last() == texts@[k as int]@);
            assert(views(texts@.take(k + 1)).drop_last() =~= views(texts@.take(k as int)));
            assert(views(out@) =~= before + payloads_last_first(lv));
        }
    }
    proof {
        assert(views(texts@.take(0)) =~= Seq::<Seq<char>>::empty());
        assert(views(out@) + Seq::<Seq<char>>::empty() =~= views(out@));
        assert(texts@.take(texts@.len() as int) =~= texts@);
    }
    out
}

} // verus!
