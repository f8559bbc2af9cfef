//! Splitting text into lines.
use vstd::prelude::*;

use crate::text::chars_of;

verus! {

/// The runs of `s` between newline characters, in order. There is always at
/// least one run: the one after the last newline, possibly empty.
pub open spec fn pieces(s: Seq<char>) -> Seq<Seq<char>>
    decreases s.len(),
{
    if s.len() == 0 {
        seq![Seq::empty()]
    } else {
        let p = pieces(s.drop_last());
        if s.last() == '\n' {
            p.push(Seq::empty())
        } else {
            p.update(p.len() - 1, p.last().push(s.last()))
        }
    }
}

/// A line ended by a newline, without the carriage return that may precede it.
pub open spec fn strip_cr(l: Seq<char>) -> Seq<char> {
    if l.len() > 0 && l.last() == '\r' {
        l.drop_last()
    } else {
        l
    }
}

/// The lines of `s`: every run ended by a newline, less a carriage return
/// before that newline, then the text after the last newline if it is not
/// empty. Empty text has no lines, and a final newline adds no empty line.
pub open spec fn lines_of(s: Seq<char>) -> Seq<Seq<char>> {
    let p = pieces(s);
    let ended = p.drop_last().map_values(|l: Seq<char>| strip_cr(l));
    if p.last().len() == 0 {
        ended
    } else {
        ended.push(p.last())
    }
}

/// The characters that each slice holds.
pub open spec fn views<'a>(v: Seq<&'a str>) -> Seq<Seq<char>> {
    v.map_values(|s: &'a str| s@)
}

proof fn lemma_pieces_nonempty(s: Seq<char>)
    ensures
        pieces(s).len() >= 1,
    decreases s.len(),
{
    if s.len() > 0 {
        lemma_pieces_nonempty(s.drop_last());
    }
}

/// The lines of `text`, each a slice of it, in order.
pub fn split_lines<'a>(text: &'a str) -> (r: Vec<&'a str>)
    ensures
        views(r@) == lines_of(text@),
{
    let cs = chars_of(text);
    let n = cs.len();
    let mut out: Vec<&'a str> = Vec::new();
    let mut start: usize = 0;
    let mut i: usize = 0;
    proof {
        assert(cs@.take(0) =~= Seq::<char>::empty());
    }
    while i < n
        invariant
            n == cs@.len(),
            cs@ == text@,
            start <= i <= n,
            pieces(cs@.take(i as int)).len() == out@.len() + 1,
            pieces(cs@.take(i as int)).last() == cs@.subrange(start as int, i as int),
            forall|k: int|
                0 <= k < out@.len() ==> #[trigger] out@[k]@ == strip_cr(
                    pieces(cs@.take(i as int))[k],
                ),
        decreases n - i,
    {
        let ghost before = cs@.take(i as int);
        let ghost p = pieces(before);
        proof {
            lemma_pieces_nonempty(before);
            assert(cs@.take(i + 1).drop_last() =~= before);
        }
        if cs[i] == '\n' {
            let end: usize = if i > start && cs[i - 1] == '\r' {
                i - 1
            } else {
                i
            };
            let line = text.substring_char(start, end);
            proof {
                let cur = cs@.subrange(start as int, i as int);
                if i > start && cs@[i - 1] == '\r' {
                    assert(cur.drop_last() =~= cs@.subrange(start as int, end as int));
                } else {
                    assert(cur =~= cs@.subrange(start as int, end as int));
                }
            }
            out.push(line);
            start = i + 1;
            proof {
                assert(cs@.subrange(start as int, start as int) =~= Seq::<char>::empty());
            }
        } else {
            proof {
                assert(cs@.subrange(start as int, i + 1) =~= cs@.subrange(
                    start as int,
                    i as int,
                ).push(cs@[i as int]));
            }
        }
        i += 1;
    }
    proof {
        assert(cs@.take(n as int) =~= cs@);
        lemma_pieces_nonempty(cs@);
    }
    let ghost p = pieces(text@);
    let ghost ended = p.drop_last().map_values(|l: Seq<char>| strip_cr(l));
    proof {
        assert(views(out@) =~= ended);
    }
    if start < n {
        let last = text.substring_char(start, n);
        out.push(last);
        proof {
            assert(views(out@) =~= ended.push(p.last()));
        }
    } else {
        proof {
            assert(p.last().len() == 0);
        }
    }
    out
}

} // verus!
