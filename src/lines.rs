//! Splitting a text into documents, one per line.
use vstd::prelude::*;
use vstd::string::StrSliceExecFns;

verus! {

/// The pieces of `s` between its line feeds: one more piece than `s` has
/// line feeds, the last one empty when `s` ends with a line feed.
pub open spec fn pieces(s: Seq<char>) -> Seq<Seq<char>>
    decreases s.len(),
{
    if s.len() == 0 {
        seq![Seq::<char>::empty()]
    } else if s.last() == '\n' {
        pieces(s.drop_last()).push(Seq::<char>::empty())
    } else {
        let p = pieces(s.drop_last());
        p.update(p.len() - 1, p.last().push(s.last()))
    }
}

/// A line that was ended by a line feed loses one carriage return before it.
pub open spec fn strip_cr(l: Seq<char>) -> Seq<char> {
    if l.len() > 0 && l.last() == '\r' {
        l.drop_last()
    } else {
        l
    }
}

/// The lines of `s`: each line ends at a line feed or at the end of the text;
/// the terminator (line feed, or carriage return and line feed) is not part of
/// the line; an empty text has no lines, and a final line feed opens none.
pub open spec fn lines_of(s: Seq<char>) -> Seq<Seq<char>> {
    let p = pieces(s);
    let ended = p.drop_last().map_values(|l: Seq<char>| strip_cr(l));
    if p.last().len() == 0 {
        ended
    } else {
        ended.push(p.last())
    }
}

/// The number of lines of `s`.
pub open spec fn line_count(s: Seq<char>) -> nat {
    lines_of(s).len()
}

proof fn lemma_pieces_nonempty(s: Seq<char>)
    ensures
        pieces(s).len() >= 1,
    decreases s.len(),
{
    if s.len() > 0 {
        lemma_pieces_nonempty(s.drop_last());
    }
}

/// How many line feeds `s` holds.
pub open spec fn newline_count(s: Seq<char>) -> nat
    decreases s.len(),
{
    if s.len() == 0 {
        0
    } else if s.last() == '\n' {
        newline_count(s.drop_last()) + 1
    } else {
        newline_count(s.drop_last())
    }
}

proof fn lemma_pieces_shape(s: Seq<char>)
    ensures
        pieces(s).len() == newline_count(s) + 1,
        pieces(s).last().len() == 0 <==> (s.len() == 0 || s.last() == '\n'),
    decreases s.len(),
{
    if s.len() > 0 {
        lemma_pieces_shape(s.drop_last());
    }
}

/// A text has one line per line feed, and one more when it does not end
/// with a line feed and is not empty; splitting the same text twice gives
/// the same lines.
pub proof fn lemma_split_lines_count(text: Seq<char>, first: Seq<String>, second: Seq<String>)
    requires
        first.map_values(|l: String| l@) == lines_of(text),
        second.map_values(|l: String| l@) == lines_of(text),
    ensures
        first.len() == line_count(text),
        line_count(text) == newline_count(text) + (if text.len() > 0 && text.last() != '\n' {
            1nat
        } else {
            0nat
        }),
        first.len() == second.len(),
        forall|i: int| 0 <= i < first.len() ==> (#[trigger] first[i])@ == second[i]@,
{
    lemma_pieces_shape(text);
    assert(first.map_values(|l: String| l@).len() == first.len());
    assert(second.map_values(|l: String| l@).len() == second.len());
    assert forall|i: int| 0 <= i < first.len() implies (#[trigger] first[i])@ == second[i]@ by {
        assert(first.map_values(|l: String| l@)[i] == second.map_values(|l: String| l@)[i]);
    }
}

/// Splits a text into its lines, in order, keeping empty lines as empty
/// strings.
pub fn split_lines(text: &str) -> (r: Vec<String>)
    ensures
        r@.map_values(|l: String| l@) == lines_of(text@),
{
    let n = text.unicode_len();
    let mut out: Vec<String> = Vec::new();
    let mut start: usize = 0;
    let mut i: usize = 0;
    proof {
        assert(text@.subrange(0, 0) =~= Seq::<char>::empty());
    }
    while i < n
        invariant
            n == text@.len(),
            start <= i <= n,
            pieces(text@.subrange(0, i as int)).len() >= 1,
            out@.map_values(|l: String| l@) == pieces(text@.subrange(0, i as int)).drop_last().map_values(
                |l: Seq<char>| strip_cr(l),
            ),
            pieces(text@.subrange(0, i as int)).last() == text@.subrange(start as int, i as int),
        decreases n - i,
    {
        let c = text.get_char(i);
        let ghost before = text@.subrange(0, i as int);
        let ghost after = text@.subrange(0, i + 1);
        proof {
            assert(after.drop_last() =~= before);
            lemma_pieces_nonempty(before);
        }
        if c == '\n' {
            let line = if i > start && text.get_char(i - 1) == '\r' {
                text.substring_char(start, i - 1)
            } else {
                text.substring_char(start, i)
            };
            let ghost old_out = out@;
            out.push(line.to_owned());
            proof {
                let piece = text@.subrange(start as int, i as int);
                if i > start && text@[i - 1] == '\r' {
                    assert(piece.drop_last() =~= text@.subrange(start as int, i - 1));
                }
                assert(pieces(after).drop_last() =~= pieces(before));
                assert(pieces(before) =~= pieces(before).drop_last().push(piece));
                assert(out@.map_values(|l: String| l@) =~= old_out.map_values(|l: String| l@).push(
                    strip_cr(piece),
                ));
                assert(pieces(before).map_values(|l: Seq<char>| strip_cr(l)) =~= pieces(
                    before,
                ).drop_last().map_values(|l: Seq<char>| strip_cr(l)).push(strip_cr(piece)));
                assert(text@.subrange(i + 1, i + 1) =~= Seq::<char>::empty());
            }
            start = i + 1;
        } else {
            proof {
                let p = pieces(before);
                assert(pieces(after).drop_last() =~= p.drop_last());
                assert(text@.subrange(start as int, i + 1) =~= text@.subrange(
                    start as int,
                    i as int,
                ).push(c));
            }
        }
        i = i + 1;
    }
    proof {
        assert(text@.subrange(0, n as int) =~= text@);
    }
    if start < n {
        let last = text.substring_char(start, n);
        out.push(last.to_owned());
        proof {
            assert(text@.subrange(start as int, n as int).len() > 0);
        }
    }
    out
}

} // verus!
