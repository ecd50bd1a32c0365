use vstd::prelude::*;
use vstd::string::StringSliceAdditionalSpecFns;

verus! {

/// Byte that ends a line.
pub const NEWLINE: u8 = 10;

/// Byte that is dropped when it stands right before a line's `NEWLINE`.
pub const CARRIAGE_RETURN: u8 = 13;

/// The shape of a character grid: its longest line, in bytes, and its number of lines.
#[derive(Clone, Copy, Debug, PartialEq, Eq, Structural)]
pub struct GridShape {
    pub max_line_len: usize,
    pub line_count: usize,
}

impl GridShape {
    /// A shape that a scaling ratio can be taken against.
    pub open spec fn is_drawable(self) -> bool {
        self.max_line_len > 0 && self.line_count > 0
    }
}

/// The pieces of `s` between `NEWLINE` bytes; there is one more piece than
/// there are `NEWLINE`s.
pub open spec fn pieces(s: Seq<u8>) -> Seq<Seq<u8>>
    decreases s.len(),
{
    if s.len() == 0 {
        seq![Seq::empty()]
    } else {
        let p = pieces(s.drop_last());
        if s.last() == NEWLINE {
            p.push(Seq::empty())
        } else {
            p.update(p.len() - 1, p.last().push(s.last()))
        }
    }
}

/// `line` without one trailing `CARRIAGE_RETURN`.
pub open spec fn strip_cr(line: Seq<u8>) -> Seq<u8> {
    if line.len() > 0 && line.last() == CARRIAGE_RETURN {
        line.drop_last()
    } else {
        line
    }
}

/// The pieces that a `NEWLINE` ends, each without its trailing `CARRIAGE_RETURN`.
pub open spec fn ended_lines(s: Seq<u8>) -> Seq<Seq<u8>> {
    let p = pieces(s);
    p.take(p.len() - 1).map_values(|l: Seq<u8>| strip_cr(l))
}

/// The lines of a text: the ended lines, then the text after the last
/// `NEWLINE` where that is not empty.
pub open spec fn lines_of(s: Seq<u8>) -> Seq<Seq<u8>> {
    let p = pieces(s);
    if p.last().len() == 0 {
        ended_lines(s)
    } else {
        ended_lines(s).push(p.last())
    }
}

/// The greatest length among `lines`; zero where there is none.
pub open spec fn max_len(lines: Seq<Seq<u8>>) -> nat
    decreases lines.len(),
{
    if lines.len() == 0 {
        0
    } else {
        let rest = max_len(lines.drop_last());
        if lines.last().len() > rest {
            lines.last().len()
        } else {
            rest
        }
    }
}

/// The shape of the grid that a text of bytes `s` holds.
pub open spec fn shape_of(s: Seq<u8>) -> GridShape {
    GridShape {
        max_line_len: max_len(lines_of(s)) as usize,
        line_count: lines_of(s).len() as usize,
    }
}

proof fn lemma_pieces_nonempty(s: Seq<u8>)
    ensures
        pieces(s).len() >= 1,
        pieces(s).len() <= s.len() + 1,
        pieces(s).last().len() <= s.len(),
    decreases s.len(),
{
    if s.len() > 0 {
        lemma_pieces_nonempty(s.drop_last());
    }
}

proof fn lemma_max_len_bound(lines: Seq<Seq<u8>>, bound: nat)
    requires
        forall|i: int| 0 <= i < lines.len() ==> #[trigger] lines[i].len() <= bound,
    ensures
        max_len(lines) <= bound,
    decreases lines.len(),
{
    if lines.len() > 0 {
        lemma_max_len_bound(lines.drop_last(), bound);
    }
}

impl GridShape {
    /// The shape of the grid in `text`: its number of lines and the byte length
    /// of its longest line. Lines end at `NEWLINE`, a `CARRIAGE_RETURN` right
    /// before it is not counted, and a final `NEWLINE` starts no new line.
    pub fn of_text(text: &str) -> (r: GridShape)
        ensures
            r == shape_of(text.spec_bytes()),
    {
        let bytes = text.as_bytes();
        let ghost s = bytes@;
        let mut done: usize = 0;
        let mut best: usize = 0;
        let mut cur: usize = 0;
        let mut ends_cr: bool = false;
        let mut i: usize = 0;
        proof {
            assert(s.take(0) =~= Seq::<u8>::empty());
            assert(ended_lines(s.take(0)) =~= Seq::<Seq<u8>>::empty());
        }
        while i < bytes.len()
            invariant
                s == bytes@,
                i <= s.len(),
                pieces(s.take(i as int)).len() == done + 1,
                pieces(s.take(i as int)).last().len() == cur,
                ends_cr == (cur > 0 && pieces(s.take(i as int)).last().last() == CARRIAGE_RETURN),
                best == max_len(ended_lines(s.take(i as int))),
                done + cur <= i,
                best <= i,
            decreases s.len() - i,
        {
            let b = bytes[i];
            let ghost prefix = s.take(i as int);
            let ghost next = s.take(i + 1);
            proof {
                assert(next.drop_last() =~= prefix);
                assert(next.last() == b);
                lemma_pieces_nonempty(prefix);
            }
            if b == NEWLINE {
                proof {
                    let p = pieces(prefix);
                    assert(pieces(next) == p.push(Seq::empty()));
                    assert(ended_lines(next).drop_last() =~= ended_lines(prefix));
                    assert(ended_lines(next).last() == strip_cr(p.last()));
                }
                let len: usize = if ends_cr { cur - 1 } else { cur };
                if len > best {
                    best = len;
                }
                done = done + 1;
                cur = 0;
                ends_cr = false;
            } else {
                proof {
                    let p = pieces(prefix);
                    assert(ended_lines(next) =~= ended_lines(prefix));
                }
                cur = cur + 1;
                ends_cr = b == CARRIAGE_RETURN;
            }
            i = i + 1;
        }
        proof {
            assert(s.take(s.len() as int) =~= s);
            lemma_pieces_nonempty(s);
        }
        if cur == 0 {
            GridShape { max_line_len: best, line_count: done }
        } else {
            proof {
                assert(lines_of(s).drop_last() =~= ended_lines(s));
            }
            GridShape { max_line_len: if cur > best { cur } else { best }, line_count: done + 1 }
        }
    }
}

} // verus!
