//! Newline-delimited output: one record per line.

use vstd::prelude::*;

verus! {

/// The byte that ends a line.
pub const LINE_END: u8 = 0x0A;

/// The records one after another, each followed by a line end.
pub open spec fn lines_of(records: Seq<Seq<u8>>) -> Seq<u8>
    decreases records.len(),
{
    if records.len() == 0 {
        Seq::empty()
    } else {
        lines_of(records.drop_last()) + records.last().push(LINE_END)
    }
}

/// The lines of records that follow one another are the lines of the first, then
/// those of the second: buffers written one after another read as one.
pub proof fn lemma_lines_follow_each_other(first: Seq<Seq<u8>>, second: Seq<Seq<u8>>)
    ensures
        lines_of(first + second) == lines_of(first) + lines_of(second),
    decreases second.len(),
{
    if second.len() == 0 {
        assert(first + second == first);
    } else {
        assert((first + second).drop_last() == first + second.drop_last());
        lemma_lines_follow_each_other(first, second.drop_last());
    }
}

/// The buffer that holds `records` as lines: each record, then a line end; no line
/// end before the first record and nothing after the last line end.
pub fn write_lines(records: &Vec<Vec<u8>>) -> (buffer: Vec<u8>)
    ensures
        buffer@ == lines_of(records.deep_view()),
{
    let ghost all = records.deep_view();
    let mut buffer: Vec<u8> = Vec::new();
    let mut i: usize = 0;
    while i < records.len()
        invariant
            i <= records.len(),
            all == records.deep_view(),
            buffer@ == lines_of(all.take(i as int)),
        decreases records.len() - i,
    {
        assert(all.take(i as int + 1).drop_last() == all.take(i as int));
        buffer.extend_from_slice(records[i].as_slice());
        buffer.push(LINE_END);
        i += 1;
    }
    assert(all.take(records.len() as int) == all);
    buffer
}

} // verus!
