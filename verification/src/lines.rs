//! Lines of text, as they are found in files.

use vstd::prelude::*;

use crate::bytes::{find_byte, first_index, lemma_first_index_at};

verus! {

/// `line` without the carriage return that it may end in.
pub open spec fn without_cr(line: Seq<u8>) -> Seq<u8> {
    if line.len() > 0 && line.last() == 0x0d {
        line.drop_last()
    } else {
        line
    }
}

/// The lines of `s`. Each line ends in a line feed or in a carriage return
/// and a line feed, neither of which belong to it. The last line may lack
/// its line feed.
pub open spec fn lines(s: Seq<u8>) -> Seq<Seq<u8>>
    decreases s.len(),
{
    let end = first_index(s, 0x0a);
    if s.len() == 0 {
        Seq::empty()
    } else if end < s.len() {
        seq![without_cr(s.take(end as int))] + lines(s.skip(end as int + 1))
    } else {
        seq![s]
    }
}

/// Find the line that starts at `pos`: the position of its end, and that of
/// the line after it.
pub fn next_line(s: &[u8], pos: usize) -> (r: (usize, usize))
    requires
        pos < s@.len(),
    ensures
        pos <= r.0 <= r.1 <= s@.len(),
        pos < r.1,
        lines(s@.skip(pos as int)) == seq![s@.subrange(pos as int, r.0 as int)] + lines(
            s@.skip(r.1 as int),
        ),
{
    let rest = vstd::slice::slice_subrange(s, pos, s.len());
    let end: usize = find_byte(rest, 0x0a);
    proof {
        lemma_first_index_at(rest@, 0x0a);
        assert(rest@ =~= s@.skip(pos as int));
    }
    if end < rest.len() {
        let line = vstd::slice::slice_subrange(rest, 0, end);
        assert(line@ =~= s@.subrange(pos as int, pos + end));
        assert(rest@.take(end as int) =~= line@);
        assert(rest@.skip(end + 1) =~= s@.skip(pos + end + 1));
        if end > 0 && line[end - 1] == 0x0d {
            assert(line@.drop_last() =~= s@.subrange(pos as int, pos + end - 1));
            (pos + end - 1, pos + end + 1)
        } else {
            (pos + end, pos + end + 1)
        }
    } else {
        let len = s.len();
        assert(s@.subrange(pos as int, len as int) =~= rest@);
        assert(lines(s@.skip(len as int)) =~= Seq::<Seq<u8>>::empty());
        (len, len)
    }
}

/// Putting a complete line in front of a text adds just that line to its
/// lines.
pub proof fn lemma_lines_cons(line: Seq<u8>, rest: Seq<u8>)
    requires
        !line.contains(0x0a),
    ensures
        lines(line + seq![0x0au8] + rest) == seq![without_cr(line)] + lines(rest),
{
    let s = line + seq![0x0au8] + rest;
    let n = line.len() as int;
    assert forall|j: int| 0 <= j < n implies s[j] != 0x0a by {
        assert(s[j] == line[j]);
        assert(line.contains(line[j]));
    }
    crate::bytes::lemma_first_index(s, 0x0a, n);
    assert(s.take(n) =~= line);
    assert(s.skip(n + 1) =~= rest);
}

/// How a text falls into lines, by its bytes: `line` without a line feed makes
/// up a line of its own, if a line feed or a carriage return and a line feed
/// follow it. At the end of the text it does so as it is.
pub proof fn line_ends(line: Seq<u8>, rest: Seq<u8>)
    requires
        forall|i: int| 0 <= i < line.len() ==> line[i] != 0x0a,
    ensures
        line.len() == 0 || line.last() != 0x0d ==> lines(line + seq![0x0au8] + rest) == seq![line]
            + lines(rest),
        lines(line + seq![0x0du8, 0x0au8] + rest) == seq![line] + lines(rest),
        line.len() > 0 ==> lines(line) == seq![line],
        lines(Seq::empty()).len() == 0,
{
    assert(!line.contains(0x0a));
    lemma_lines_cons(line, rest);
    let with_cr = line + seq![0x0du8];
    assert(!with_cr.contains(0x0a)) by {
        assert forall|i: int| 0 <= i < with_cr.len() implies with_cr[i] != 0x0a by {
            if i < line.len() {
                assert(with_cr[i] == line[i]);
            }
        }
    }
    lemma_lines_cons(with_cr, rest);
    assert(with_cr + seq![0x0au8] + rest =~= line + seq![0x0du8, 0x0au8] + rest);
    assert(with_cr.drop_last() =~= line);
    lemma_first_index_at(line, 0x0a);
}

} // verus!
