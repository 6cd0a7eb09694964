//! What a dataset reads of a journal: every line that was written, in order.

use vstd::prelude::*;
use vstd::utf8::{encode_scalar, encode_utf8};

use crate::dataset::{
    blank, blank_byte, journal_datum, journal_fold, journal_step, line_end, line_value, lines_of,
    DatumView, Gathered,
};
use crate::json::{printed, Json};
use crate::spelling::{
    alike, alike_values_have_the_same_fields, lemma_encode_concat, lemma_printable_bytes,
    printable, reads_back, spellable, DEEPEST,
};

verus! {

/// The text of a journal with these lines.
pub open spec fn journal_text(lines: Seq<Json>) -> Seq<char>
    decreases lines.len(),
{
    if lines.len() == 0 {
        Seq::empty()
    } else {
        journal_text(lines.drop_last()) + (printed(lines.last()) + "\n"@)
    }
}

/// Whether these can be lines of a journal: objects that can be spelled, each
/// on one line.
pub open spec fn journaled(lines: Seq<Json>) -> bool {
    forall|i: int|
        0 <= i < lines.len() ==> (#[trigger] lines[i]) is Object && spellable(
            lines[i],
            DEEPEST as nat,
        ) && printable(printed(lines[i]))
}

/// Whether a datum is what a line says: its time, vehicle and kind, and a body
/// like it.
pub open spec fn tells(d: DatumView, block: int, line: Json) -> bool {
    &&& d == (DatumView { body: d.body, ..journal_datum(block, line) })
    &&& alike(line, d.body)
}

/// Whether `after` is `before` and what these lines tell, in order.
pub open spec fn come_back(
    before: Seq<DatumView>,
    after: Seq<DatumView>,
    block: int,
    lines: Seq<Json>,
) -> bool {
    &&& after.len() == before.len() + lines.len()
    &&& forall|i: int| 0 <= i < before.len() ==> #[trigger] after[i] == before[i]
    &&& forall|i: int|
        0 <= i < lines.len() ==> tells(after[before.len() + i], block, #[trigger] lines[i])
}

/// The bytes of each line.
pub open spec fn line_bytes(lines: Seq<Json>) -> Seq<Seq<u8>> {
    Seq::new(lines.len(), |i: int| encode_utf8(printed(lines[i])))
}

proof fn lemma_line_end_is(s: Seq<u8>, k: int)
    requires
        0 <= k <= s.len(),
        forall|i: int| 0 <= i < k ==> s[i] != 10,
        k < s.len() ==> s[k] == 10,
    ensures
        line_end(s) == k,
    decreases k,
{
    if k > 0 {
        assert(s[0] != 10);
        lemma_line_end_is(s.skip(1), k - 1);
    }
}

proof fn lemma_line_end_bounds(s: Seq<u8>)
    ensures
        0 <= line_end(s) <= s.len(),
        line_end(s) < s.len() ==> s[line_end(s)] == 10,
        forall|i: int| 0 <= i < line_end(s) ==> s[i] != 10,
    decreases s.len(),
{
    if s.len() > 0 && s[0] != 10 {
        let t = s.skip(1);
        lemma_line_end_bounds(t);
        assert forall|i: int| 0 <= i < line_end(s) implies s[i] != 10 by {
            if i > 0 {
                assert(t[i - 1] == s[i]);
            }
        }
    }
}

/// One more line at the end of a text whose lines are all ended.
proof fn lemma_one_more_line(p: Seq<u8>, line: Seq<u8>, done: Seq<Seq<u8>>)
    requires
        lines_of(p) == done.push(Seq::empty()),
        forall|i: int| 0 <= i < line.len() ==> line[i] != 10,
    ensures
        lines_of(p + line.push(10)) == done.push(line).push(Seq::empty()),
    decreases p.len(),
{
    let all = p + line.push(10);
    let k = line_end(p);
    lemma_line_end_bounds(p);
    if k < p.len() {
        let rest = p.skip(k + 1);
        lemma_line_end_is(all, k);
        assert(all.take(k) =~= p.take(k));
        assert(all.skip(k + 1) =~= rest + line.push(10));
        assert(lines_of(p) == seq![p.take(k)] + lines_of(rest));
        assert(lines_of(rest).len() > 0) by {
            let m = line_end(rest);
        }
        assert(done.len() > 0);
        let more = done.skip(1);
        assert(lines_of(rest) =~= more.push(Seq::empty())) by {
            assert(lines_of(p)[0] == p.take(k));
            assert forall|i: int| 0 <= i < lines_of(rest).len() implies lines_of(rest)[i]
                == more.push(Seq::empty())[i] by {
                assert(lines_of(p)[i + 1] == lines_of(rest)[i]);
            }
        }
        lemma_one_more_line(rest, line, more);
        assert(done[0] == p.take(k)) by {
            assert(lines_of(p)[0] == p.take(k));
        }
        assert(seq![p.take(k)] + more.push(line).push(Seq::empty()) =~= done.push(line).push(
            Seq::empty(),
        ));
    } else {
        assert(lines_of(p) == seq![p]);
        assert(done.len() == 0);
        assert(lines_of(p)[0] == p);
        assert(p =~= Seq::empty());
        assert(all =~= line.push(10));
        lemma_line_end_is(all, line.len() as int);
        assert(all.take(line.len() as int) =~= line);
        let rest = all.skip(line.len() as int + 1);
        assert(rest =~= Seq::empty());
        assert(line_end(rest) == 0);
        assert(lines_of(rest) == seq![rest]);
        assert(seq![line] + seq![rest] =~= done.push(line).push(Seq::empty()));
    }
}

/// A journal's text falls into the lines that were written, and nothing after
/// the last of them.
pub proof fn journals_fall_into_their_lines(lines: Seq<Json>)
    requires
        journaled(lines),
    ensures
        lines_of(encode_utf8(journal_text(lines))) == line_bytes(lines).push(Seq::empty()),
    decreases lines.len(),
{
    if lines.len() == 0 {
        let none = encode_utf8(journal_text(lines));
        assert(none =~= Seq::empty());
        assert(line_end(none) == 0);
        assert(lines_of(none) == seq![none]);
        assert(line_bytes(lines).push(Seq::empty()) =~= seq![none]);
    } else {
        let before = lines.drop_last();
        assert forall|i: int| 0 <= i < before.len() implies (#[trigger] before[i]) is Object
            && spellable(before[i], DEEPEST as nat) && printable(printed(before[i])) by {
            assert(before[i] == lines[i]);
        }
        journals_fall_into_their_lines(before);
        let last = lines[lines.len() - 1];
        let bytes = encode_utf8(printed(last));
        lemma_printable_bytes(printed(last));
        lemma_encode_concat(journal_text(before), printed(last) + "\n"@);
        lemma_encode_concat(printed(last), "\n"@);
        lemma_line_feed();
        assert(bytes + seq![10u8] =~= bytes.push(10));
        lemma_one_more_line(encode_utf8(journal_text(before)), bytes, line_bytes(before));
        assert(line_bytes(before).push(bytes) =~= line_bytes(lines));
    }
}

proof fn lemma_line_feed()
    ensures
        encode_utf8("\n"@) == seq![10u8],
{
    reveal_strlit("\n");
    let s = "\n"@;
    assert(s.len() == 1 && s[0] == '\n');
    assert(s[0] as u32 == 10);
    assert(s.drop_first() =~= Seq::empty());
    assert(encode_utf8(s.drop_first()) =~= Seq::<u8>::empty());
    assert((10u32 & 0x7f) as u8 == 10) by (bit_vector);
    assert(encode_scalar(10) =~= seq![10u8]);
    assert(encode_utf8(s) =~= seq![10u8]);
}

/// The line of an object is not blank.
pub proof fn lemma_objects_are_not_blank(line: Json)
    requires
        line is Object,
        printable(printed(line)),
    ensures
        !blank(encode_utf8(printed(line))),
{
    reveal_strlit("{");
    let s = printed(line);
    assert(s[0] == '{');
    assert(s[0] as u32 == 123);
    assert((123u32 & 0x7f) as u8 == 123) by (bit_vector);
    assert(encode_scalar(123) =~= seq![123u8]);
    assert(encode_utf8(s)[0] == 123);
    assert(!blank_byte(encode_utf8(s)[0]));
}

proof fn lemma_lines_gather(
    g: Gathered,
    block: int,
    lines: Seq<Json>,
    all: Seq<Seq<u8>>,
    n: nat,
)
    requires
        journaled(lines),
        all == line_bytes(lines).push(Seq::empty()),
        forall|i: int| 0 <= i < lines.len() ==> reads_back(#[trigger] all[i]),
        n <= lines.len(),
    ensures
        come_back(g.data, journal_fold(g, block, all, n).data, block, lines.take(n as int)),
    decreases n,
{
    if n > 0 {
        let k = n - 1;
        lemma_lines_gather(g, block, lines, all, k as nat);
        let line = lines[k];
        assert(all[k] == encode_utf8(printed(line)));
        assert(reads_back(all[k]));
        lemma_objects_are_not_blank(line);
        let read = line_value(all[k])->0;
        assert(alike(line, read));
        alike_values_have_the_same_fields(line, read, "kind"@);
        alike_values_have_the_same_fields(line, read, "ts_ns"@);
        alike_values_have_the_same_fields(line, read, "vehicle_id"@);
        assert(tells(journal_datum(block, read), block, line));
        let mid = journal_fold(g, block, all, k as nat);
        let end = journal_fold(g, block, all, n);
        assert(end == journal_step(mid, block, all[k]));
        assert(end.data == mid.data.push(journal_datum(block, read)));
        let shorter = lines.take(k);
        let taken = lines.take(n as int);
        assert forall|i: int| 0 <= i < taken.len() implies tells(
            end.data[g.data.len() + i],
            block,
            #[trigger] taken[i],
        ) by {
            if i < k {
                assert(taken[i] == shorter[i]);
            }
        }
    }
}

/// What was journaled is what a dataset reads: each line of a journal gives
/// one datum, in order, of its time, its vehicle and its kind, with the same
/// texts, counts and flags in its body.
pub proof fn journaled_lines_are_read_back(g: Gathered, block: int, lines: Seq<Json>)
    requires
        journaled(lines),
        forall|i: int| 0 <= i < lines.len() ==> reads_back(#[trigger] line_bytes(lines)[i]),
    ensures
        ({
            let all = lines_of(encode_utf8(journal_text(lines)));
            come_back(g.data, journal_fold(g, block, all, all.len()).data, block, lines)
        }),
{
    journals_fall_into_their_lines(lines);
    let all = lines_of(encode_utf8(journal_text(lines)));
    assert forall|i: int| 0 <= i < lines.len() implies reads_back(#[trigger] all[i]) by {
        assert(all[i] == line_bytes(lines)[i]);
    }
    lemma_lines_gather(g, block, lines, all, lines.len());
    assert(lines.take(lines.len() as int) =~= lines);
    let last = all[lines.len() as int];
    assert(last == Seq::<u8>::empty());
    assert(blank(last));
    assert(journal_fold(g, block, all, all.len()) == journal_fold(g, block, all, lines.len()));
}

} // verus!
