//! The snapshot: what the sources report, one after another, as one block
//! of text.

use vstd::prelude::*;
use crate::osc::datagram;
use crate::sources::{Info, Provider};
use crate::text::{lemma_nul_free_concat, nul_free};

verus! {

/// The test for a source that reported something.
pub open spec fn reported() -> spec_fn(Seq<char>) -> bool {
    |text: Seq<char>| text.len() > 0
}

/// `parts` with one newline between neighbours.
pub open spec fn join_lines(parts: Seq<Seq<char>>) -> Seq<char>
    decreases parts.len(),
{
    if parts.len() == 0 {
        Seq::empty()
    } else if parts.len() == 1 {
        parts[0]
    } else {
        join_lines(parts.drop_last()) + seq!['\n'] + parts.last()
    }
}

/// The snapshot made of `outputs`: those that are not empty, in their
/// order, joined by single newlines.
pub open spec fn snapshot_text(outputs: Seq<Seq<char>>) -> Seq<char> {
    join_lines(outputs.filter(reported()))
}

/// What each of `providers` reports, in their order.
pub open spec fn outputs_of(providers: Seq<Provider>) -> Seq<Seq<char>> {
    Seq::new(providers.len(), |i: int| providers[i].line())
}

/// Filtering looks at a new last element on its own.
pub proof fn lemma_filter_push(outputs: Seq<Seq<char>>, last: Seq<char>)
    ensures
        outputs.push(last).filter(reported()) == if last.len() > 0 {
            outputs.filter(reported()).push(last)
        } else {
            outputs.filter(reported())
        },
{
    reveal(Seq::filter);
    assert(outputs.push(last).drop_last() =~= outputs);
}

/// A join of parts that all hold something is empty only if there are no
/// parts.
pub proof fn lemma_join_len(parts: Seq<Seq<char>>)
    requires
        forall|i: int| 0 <= i < parts.len() ==> (#[trigger] parts[i]).len() > 0,
    ensures
        join_lines(parts).len() == 0 <==> parts.len() == 0,
    decreases parts.len(),
{
    if parts.len() > 1 {
        lemma_join_len(parts.drop_last());
    }
}

/// How the snapshot grows by one more output: an empty one changes
/// nothing, the first that holds something stands alone, any later one
/// follows a newline.
pub proof fn lemma_snapshot_push(outputs: Seq<Seq<char>>, last: Seq<char>)
    ensures
        snapshot_text(outputs.push(last)) == if last.len() == 0 {
            snapshot_text(outputs)
        } else if snapshot_text(outputs).len() == 0 {
            last
        } else {
            snapshot_text(outputs) + seq!['\n'] + last
        },
{
    let kept = outputs.filter(reported());
    lemma_filter_push(outputs, last);
    assert forall|i: int| 0 <= i < kept.len() implies (#[trigger] kept[i]).len() > 0 by {
        outputs.lemma_filter_pred(reported(), i);
    }
    lemma_join_len(kept);
    if last.len() > 0 {
        assert(kept.push(last).drop_last() =~= kept);
    }
}

/// Asks every provider, in order, for its text and joins what comes back:
/// empty answers are passed over, the others are set one per line, with no
/// newline before the first or after the last. The snapshot holds no NUL
/// character, so it can travel as an OSC string.
pub fn get_info(providers: &Vec<Provider>) -> (info: String)
    ensures
        info@ == snapshot_text(outputs_of(providers@)),
        nul_free(info@),
{
    let mut info = String::new();
    let mut i: usize = 0;
    assert(outputs_of(providers@).take(0) =~= Seq::empty());
    assert(snapshot_text(Seq::empty()) =~= Seq::empty()) by {
        reveal(Seq::filter);
    }
    while i < providers.len()
        invariant
            i <= providers.len(),
            info@ == snapshot_text(outputs_of(providers@).take(i as int)),
            nul_free(info@),
        decreases providers.len() - i,
    {
        let line = providers[i].get_info();
        proof {
            let outputs = outputs_of(providers@);
            assert(outputs.take(i + 1) =~= outputs.take(i as int).push(line@));
            lemma_snapshot_push(outputs.take(i as int), line@);
            reveal_strlit("\n");
            assert("\n"@ =~= seq!['\n']);
            lemma_nul_free_concat(info@, seq!['\n']);
            lemma_nul_free_concat(info@ + seq!['\n'], line@);
        }
        if !line.as_str().is_empty() {
            if !info.as_str().is_empty() {
                info.append("\n");
            }
            info.append(line.as_str());
        }
        i = i + 1;
    }
    assert(outputs_of(providers@).take(i as int) =~= outputs_of(providers@));
    info
}

/// The segments of `text` that its newlines set apart: always at least
/// one, and one more for each newline.
pub open spec fn split_lines(text: Seq<char>) -> Seq<Seq<char>>
    decreases text.len(),
{
    if text.len() == 0 {
        seq![Seq::empty()]
    } else {
        let before = split_lines(text.drop_last());
        if text.last() == '\n' {
            before.push(Seq::empty())
        } else {
            before.update(before.len() - 1, before.last().push(text.last()))
        }
    }
}

/// `text` holds no newline.
pub open spec fn single_line(text: Seq<char>) -> bool {
    forall|i: int| 0 <= i < text.len() ==> text[i] != '\n'
}

/// `text` holds something, neither starts nor ends with a newline, and has
/// no two newlines in a row: read line by line, none of its lines is blank.
pub open spec fn no_blank_line(text: Seq<char>) -> bool {
    &&& text.len() > 0
    &&& text[0] != '\n'
    &&& text[text.len() - 1] != '\n'
    &&& forall|i: int| 0 <= i < text.len() - 1 ==> !(text[i] == '\n' && #[trigger] text[i + 1] == '\n')
}

/// Splitting never comes back empty-handed.
pub proof fn lemma_split_len(text: Seq<char>)
    ensures
        split_lines(text).len() >= 1,
    decreases text.len(),
{
    if text.len() > 0 {
        lemma_split_len(text.drop_last());
    }
}

/// Text without a newline, set behind `head`, lengthens the last segment
/// of `head` and makes no new one.
pub proof fn lemma_split_append(head: Seq<char>, tail: Seq<char>)
    requires
        single_line(tail),
    ensures
        split_lines(head).len() >= 1,
        split_lines(head + tail) == split_lines(head).update(
            split_lines(head).len() - 1,
            split_lines(head).last() + tail,
        ),
    decreases tail.len(),
{
    lemma_split_len(head);
    let lines = split_lines(head);
    if tail.len() == 0 {
        assert(head + tail =~= head);
        assert(lines.last() + tail =~= lines.last());
        assert(lines.update(lines.len() - 1, lines.last()) =~= lines);
    } else {
        let shorter = tail.drop_last();
        lemma_split_append(head, shorter);
        assert((head + tail).drop_last() =~= head + shorter);
        assert((head + tail).last() == tail.last());
        assert((lines.last() + shorter).push(tail.last()) =~= lines.last() + tail);
        assert(split_lines(head + tail) =~= lines.update(lines.len() - 1, lines.last() + tail));
    }
}

/// Joining and splitting undo each other on lines that hold no newline.
pub proof fn lemma_split_join(parts: Seq<Seq<char>>)
    requires
        parts.len() >= 1,
        forall|i: int| 0 <= i < parts.len() ==> single_line(#[trigger] parts[i]),
    ensures
        split_lines(join_lines(parts)) == parts,
    decreases parts.len(),
{
    if parts.len() == 1 {
        let empty = Seq::<char>::empty();
        lemma_split_append(empty, parts[0]);
        assert(empty + parts[0] =~= parts[0]);
        assert(split_lines(parts[0]) =~= parts);
    } else {
        let front = parts.drop_last();
        lemma_split_join(front);
        let head = join_lines(front) + seq!['\n'];
        assert(head.drop_last() =~= join_lines(front));
        assert(split_lines(head) == front.push(Seq::empty()));
        lemma_split_append(head, parts.last());
        assert(Seq::<char>::empty() + parts.last() =~= parts.last());
        assert(split_lines(join_lines(parts)) =~= parts);
    }
}

/// Where every source reports something, the snapshot holds all the
/// outputs in their order with one newline between neighbours; and where
/// none of the outputs holds a newline of its own, the snapshot, read line
/// by line, is exactly the outputs: one line for each source, in the order
/// of the sources.
pub proof fn lemma_one_segment_per_source(outputs: Seq<Seq<char>>)
    requires
        outputs.len() >= 1,
        forall|i: int| 0 <= i < outputs.len() ==> (#[trigger] outputs[i]).len() > 0,
    ensures
        snapshot_text(outputs) == join_lines(outputs),
        (forall|i: int| 0 <= i < outputs.len() ==> single_line(#[trigger] outputs[i]))
            ==> split_lines(snapshot_text(outputs)) == outputs,
{
    lemma_filter_keeps_all(outputs);
    if forall|i: int| 0 <= i < outputs.len() ==> single_line(#[trigger] outputs[i]) {
        lemma_split_join(outputs);
    }
}

/// A filter that every element passes changes nothing.
pub proof fn lemma_filter_keeps_all(outputs: Seq<Seq<char>>)
    requires
        forall|i: int| 0 <= i < outputs.len() ==> (#[trigger] outputs[i]).len() > 0,
    ensures
        outputs.filter(reported()) == outputs,
    decreases outputs.len(),
{
    reveal(Seq::filter);
    if outputs.len() > 0 {
        lemma_filter_keeps_all(outputs.drop_last());
        assert(outputs.drop_last().push(outputs.last()) =~= outputs);
    }
}

/// A source that reports nothing leaves no trace: the snapshot is the same
/// as if that source were not there.
pub proof fn lemma_empty_output_is_omitted(before: Seq<Seq<char>>, after: Seq<Seq<char>>)
    ensures
        snapshot_text(before + seq![Seq::<char>::empty()] + after) == snapshot_text(before + after),
{
    let gap = seq![Seq::<char>::empty()];
    Seq::filter_distributes_over_add(before + gap, after, reported());
    Seq::filter_distributes_over_add(before, gap, reported());
    Seq::filter_distributes_over_add(before, after, reported());
    assert(gap.filter(reported()) =~= Seq::empty()) by {
        reveal(Seq::filter);
        assert(gap.drop_last() =~= Seq::empty());
        assert(gap.drop_last().filter(reported()) =~= Seq::empty());
    }
    assert(before.filter(reported()) + Seq::empty() =~= before.filter(reported()));
}

/// Lines without a blank line among them join into text without one.
pub proof fn lemma_join_no_blank_line(parts: Seq<Seq<char>>)
    requires
        parts.len() >= 1,
        forall|i: int| 0 <= i < parts.len() ==> no_blank_line(#[trigger] parts[i]),
    ensures
        no_blank_line(join_lines(parts)),
    decreases parts.len(),
{
    if parts.len() > 1 {
        let front = join_lines(parts.drop_last());
        let last = parts.last();
        lemma_join_no_blank_line(parts.drop_last());
        let joined = front + seq!['\n'] + last;
        assert(no_blank_line(last));
        assert forall|i: int| 0 <= i < joined.len() - 1 implies !(joined[i] == '\n'
            && #[trigger] joined[i + 1] == '\n') by {
            if i + 1 < front.len() {
                assert(joined[i] == front[i]);
                assert(joined[i + 1] == front[i + 1]);
            } else if i + 1 == front.len() {
                assert(joined[i] == front[front.len() - 1]);
            } else if i == front.len() {
                assert(joined[i + 1] == last[0]);
            } else {
                assert(joined[i] == last[i - front.len() - 1]);
                assert(joined[i + 1] == last[i - front.len() - 1 + 1]);
            }
        }
        assert(joined[0] == front[0]);
        assert(joined[joined.len() - 1] == last[last.len() - 1]);
    }
}

/// No stray blank line: whatever mix of empty and other outputs the
/// sources give, if none of the outputs that hold something has a blank
/// line of its own, then the snapshot is either empty or free of blank
/// lines: no newline at its start or end, no two in a row.
pub proof fn lemma_no_stray_blank_line(outputs: Seq<Seq<char>>)
    requires
        forall|i: int|
            0 <= i < outputs.len() && (#[trigger] outputs[i]).len() > 0 ==> no_blank_line(
                outputs[i],
            ),
    ensures
        snapshot_text(outputs).len() == 0 || no_blank_line(snapshot_text(outputs)),
        snapshot_text(outputs).len() == 0 <==> forall|i: int|
            0 <= i < outputs.len() ==> (#[trigger] outputs[i]).len() == 0,
{
    let kept = outputs.filter(reported());
    assert forall|i: int| 0 <= i < kept.len() implies no_blank_line(#[trigger] kept[i]) by {
        assert(outputs.contains(kept[i])) by {
            lemma_filter_subset(outputs, i);
        }
    }
    lemma_join_len(kept);
    if kept.len() >= 1 {
        lemma_join_no_blank_line(kept);
        assert(outputs.contains(kept[0])) by {
            lemma_filter_subset(outputs, 0);
        }
    } else {
        assert forall|i: int| 0 <= i < outputs.len() implies (#[trigger] outputs[i]).len() == 0 by {
            if outputs[i].len() > 0 {
                outputs.lemma_filter_contains(reported(), i);
            }
        }
    }
}

/// What a filter keeps was there before.
pub proof fn lemma_filter_subset(outputs: Seq<Seq<char>>, i: int)
    requires
        0 <= i < outputs.filter(reported()).len(),
    ensures
        outputs.contains(outputs.filter(reported())[i]),
        outputs.filter(reported())[i].len() > 0,
    decreases outputs.len(),
{
    reveal(Seq::filter);
    if outputs.len() > 0 {
        let front = outputs.drop_last();
        if i < front.filter(reported()).len() {
            lemma_filter_subset(front, i);
            let found = choose|k: int| 0 <= k < front.len() && front[k] == front.filter(reported())[i];
            assert(outputs[found] == front[found]);
        } else {
            assert(outputs[outputs.len() - 1] == outputs.last());
        }
    }
}

/// The same outputs make the same snapshot, whenever they are taken: the
/// text, and with it every byte of the datagram, depends on nothing but
/// what the sources report.
pub proof fn lemma_same_outputs_same_snapshot(first: Seq<Provider>, second: Seq<Provider>)
    requires
        outputs_of(first) == outputs_of(second),
    ensures
        snapshot_text(outputs_of(first)) == snapshot_text(outputs_of(second)),
        datagram(snapshot_text(outputs_of(first))) == datagram(snapshot_text(outputs_of(second))),
{
}

} // verus!
