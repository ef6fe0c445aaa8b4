//! What holds of Server-Sent Events as they are read back.

use vstd::prelude::*;

use crate::sse::{
    block_len, blocks, continued, event_of, events_in, fed, field_value, field_values,
    law_blocks_keep_all_text, law_no_complete_event_is_held_back, lemma_block_len,
    lemma_block_len_is, lemma_blocks_concat, lemma_events_concat, lemma_unified_concat, remainder,
    splits_line_ending, unified, EventText,
};
use crate::text::{
    joined, lemma_line_end, lemma_line_end_is, line_end, lines, without_prefix, without_return,
};

verus! {

/// A text that stands on one line: it has no line feed, and no carriage return
/// at its end.
pub open spec fn one_line(text: Seq<char>) -> bool {
    &&& forall|i: int| 0 <= i < text.len() ==> #[trigger] text[i] != '\n'
    &&& text.len() > 0 ==> text.last() != '\r'
}

/// The lines of an event as they are written: its name, where it has one, and its
/// data line by line.
pub open spec fn field_lines(name: Option<Seq<char>>, data: Seq<Seq<char>>) -> Seq<Seq<char>> {
    let data_lines = data.map_values(|d: Seq<char>| "data: "@ + d);
    match name {
        Some(n) => seq!["event: "@ + n] + data_lines,
        None => data_lines,
    }
}

/// The lines, each with a line feed after it.
pub open spec fn ended(lines: Seq<Seq<char>>) -> Seq<char>
    decreases lines.len(),
{
    if lines.len() == 0 {
        Seq::empty()
    } else {
        lines[0] + "\n"@ + ended(lines.skip(1))
    }
}

/// An event as it is written to a stream: its lines, and a blank line.
pub open spec fn written(name: Option<Seq<char>>, data: Seq<Seq<char>>) -> Seq<char> {
    ended(field_lines(name, data)) + "\n"@
}

proof fn lemma_unified_without_line_feed(text: Seq<char>)
    requires
        forall|i: int| 0 <= i < text.len() ==> #[trigger] text[i] != '\n',
    ensures
        unified(text) == text,
    decreases text.len(),
{
    if text.len() > 0 {
        let rest = text.skip(1);
        assert(forall|i: int| 0 <= i < rest.len() ==> #[trigger] rest[i] == text[i + 1]);
        lemma_unified_without_line_feed(rest);
        assert(seq![text[0]] + rest =~= text);
    }
}

/// The lines of a line that is ended by a line feed, and of what follows it.
proof fn lemma_first_line(line: Seq<char>, rest: Seq<char>)
    requires
        one_line(line),
    ensures
        lines(line + seq!['\n'] + rest) == seq![line] + lines(rest),
{
    let text = line + seq!['\n'] + rest;
    lemma_line_end_is(text, line.len() as int);
    assert(text.take(line.len() as int) =~= line);
    assert(text.skip(line.len() as int + 1) =~= rest);
}

proof fn lemma_only_block(text: Seq<char>)
    requires
        block_len(text) == Some(text.len()),
        text.len() >= 2,
    ensures
        blocks(text) == seq![text],
        remainder(text) == Seq::<char>::empty(),
{
    assert(text.take(text.len() as int) =~= text);
    assert(text.skip(text.len() as int) =~= Seq::<char>::empty());
    assert(blocks(Seq::<char>::empty()) =~= Seq::<Seq<char>>::empty());
    assert(blocks(text) =~= seq![text]);
    assert(remainder(Seq::<char>::empty()) =~= Seq::<char>::empty());
}

proof fn lemma_one_event(raw: Seq<char>, event: EventText)
    requires
        event_of(raw) == Some(event),
    ensures
        events_in(seq![raw]) == seq![event],
{
    let one = seq![raw];
    assert(one.drop_last() =~= Seq::<Seq<char>>::empty());
    assert(events_in(one.drop_last()) =~= Seq::<EventText>::empty());
    assert(events_in(one) =~= seq![event]);
}

/// The lines are proper lines with something on them.
spec fn proper(lines: Seq<Seq<char>>) -> bool {
    forall|i: int| 0 <= i < lines.len() ==> one_line(#[trigger] lines[i]) && lines[i].len() > 0
}

/// Proper lines that are ended by line feeds have nothing to unify, hold no blank
/// line, and are the lines of their text.
proof fn lemma_ended(all: Seq<Seq<char>>)
    requires
        proper(all),
    ensures
        unified(ended(all) + seq!['\n']) == ended(all) + seq!['\n'],
        lines(ended(all) + seq!['\n']) == all.push(Seq::empty()),
        forall|i: int|
            0 <= i < ended(all).len() - 1 ==> !(#[trigger] ended(all)[i] == '\n' && ended(all)[i + 1]
                == '\n'),
        all.len() > 0 ==> ended(all).len() > 0 && ended(all)[0] != '\n' && ended(all).last() == '\n',
    decreases all.len(),
{
    reveal_strlit("\n");
    assert("\n"@ =~= seq!['\n']);
    let empty = Seq::<char>::empty();
    let text = ended(all);
    if all.len() == 0 {
        assert(text + seq!['\n'] =~= seq!['\n']);
        assert(seq!['\n'].skip(1) =~= empty);
        assert(unified(empty) =~= empty);
        assert(unified(seq!['\n']) =~= seq!['\n']);
        lemma_first_line(empty, empty);
        assert(empty + seq!['\n'] + empty =~= seq!['\n']);
        assert(lines(seq!['\n']) =~= all.push(empty));
    } else {
        let line = all[0];
        let others = all.skip(1);
        assert forall|i: int| 0 <= i < others.len() implies one_line(#[trigger] others[i])
            && others[i].len() > 0 by {
            assert(others[i] == all[i + 1]);
        }
        lemma_ended(others);
        let rest = ended(others);
        let tail = rest + seq!['\n'];
        assert(text =~= line + seq!['\n'] + rest);
        assert(text + seq!['\n'] =~= line + seq!['\n'] + tail);
        let behind = seq!['\n'] + tail;
        assert(line + seq!['\n'] + tail =~= line + behind);
        lemma_unified_concat(line, behind);
        lemma_unified_without_line_feed(line);
        assert(behind.skip(1) =~= tail);
        assert(unified(behind) =~= behind);
        lemma_first_line(line, tail);
        assert(seq![line] + others.push(empty) =~= all.push(empty));
        let n = line.len() as int;
        assert forall|i: int| 0 <= i < text.len() - 1 implies !(#[trigger] text[i] == '\n' && text[i
            + 1] == '\n') by {
            if i < n {
                assert(text[i] == line[i]);
            } else if i == n {
                assert(text[i + 1] == rest[0]);
            } else {
                assert(text[i] == rest[i - n - 1]);
                assert(text[i + 1] == rest[i - n - 1 + 1]);
            }
        }
        assert(text[0] == line[0]);
        if others.len() > 0 {
            assert(text.last() == rest.last());
        } else {
            assert(rest =~= empty);
        }
    }
}

/// The values of the fields of an event as it is written.
proof fn lemma_field_lines(name: Option<Seq<char>>, data: Seq<Seq<char>>)
    requires
        name matches Some(n) ==> one_line(n),
        forall|i: int| 0 <= i < data.len() ==> one_line(#[trigger] data[i]),
    ensures
        proper(field_lines(name, data)),
        field_values(field_lines(name, data), "data:"@) == data,
        field_values(field_lines(name, data), "event:"@) == (match name {
            Some(n) => seq![n],
            None => Seq::empty(),
        }),
    decreases data.len(),
{
    reveal_strlit("data: ");
    reveal_strlit("data:");
    reveal_strlit("event: ");
    reveal_strlit("event:");
    reveal_strlit(" ");
    let all = field_lines(name, data);
    if data.len() > 0 {
        let before = data.drop_last();
        assert(forall|i: int| 0 <= i < before.len() ==> #[trigger] before[i] == data[i]);
        lemma_field_lines(name, before);
        let d = data.last();
        let line = "data: "@ + d;
        assert(one_line(data[data.len() - 1]));
        assert(all.drop_last() =~= field_lines(name, before));
        assert(all.last() == line);
        assert(one_line(line)) by {
            assert forall|i: int| 0 <= i < line.len() implies #[trigger] line[i] != '\n' by {
                if i >= 6 {
                    assert(line[i] == d[i - 6]);
                }
            }
        }
        assert forall|i: int| 0 <= i < all.len() implies one_line(#[trigger] all[i]) && all[i].len()
            > 0 by {
            if i < all.len() - 1 {
                assert(all[i] == all.drop_last()[i]);
            }
        }
        assert(line.skip(5)[0] == ' ');
        assert(" "@.is_prefix_of(line.skip(5)));
        assert(line.skip(5).skip(1) =~= d);
        assert(field_value(line, "data:"@) == Some(d));
        assert(line[0] == 'd' && "event:"@[0] == 'e');
        assert(field_value(line, "event:"@) is None);
        assert(before.push(d) =~= data);
    } else {
        let none = Seq::<Seq<char>>::empty();
        assert(field_values(none, "data:"@) =~= none);
        assert(field_values(none, "event:"@) =~= none);
        match name {
            Some(n) => {
                let line = "event: "@ + n;
                assert(all =~= seq![line]);
                assert(all.drop_last() =~= none);
                assert(one_line(line)) by {
                    assert forall|i: int| 0 <= i < line.len() implies #[trigger] line[i] != '\n' by {
                        if i >= 7 {
                            assert(line[i] == n[i - 7]);
                        }
                    }
                }
                assert(line.skip(6)[0] == ' ');
                assert(" "@.is_prefix_of(line.skip(6)));
                assert(line.skip(6).skip(1) =~= n);
                assert(field_value(line, "event:"@) == Some(n));
                assert(line[0] == 'e' && "data:"@[0] == 'd');
                assert(field_value(line, "data:"@) is None);
                assert(none.push(n) =~= seq![n]);
                assert(data =~= none);
            },
            None => {
                assert(all =~= none);
                assert(data =~= none);
            },
        }
    }
}

/// What is written is read back as it was: one event with the name and the data,
/// its lines joined by line feeds, and nothing left over.
pub proof fn law_event_is_read_back(name: Option<Seq<char>>, data: Seq<Seq<char>>)
    requires
        name is Some || data.len() > 0,
        name matches Some(n) ==> one_line(n),
        forall|i: int| 0 <= i < data.len() ==> one_line(#[trigger] data[i]),
    ensures
        events_in(blocks(unified(written(name, data)))) == seq![
            EventText {
                event: match name {
                    Some(n) => n,
                    None => Seq::empty(),
                },
                data: joined(data, "\n"@),
            },
        ],
        remainder(unified(written(name, data))) == Seq::<char>::empty(),
{
    reveal_strlit("\n");
    reveal_strlit("data:");
    reveal_strlit("event:");
    assert("\n"@ =~= seq!['\n']);
    let empty = Seq::<char>::empty();
    let all = field_lines(name, data);
    lemma_field_lines(name, data);
    lemma_ended(all);
    let front = ended(all);
    let text = written(name, data);
    assert(text == front + seq!['\n']);
    assert(all.len() > 0);
    let n = text.len();
    assert forall|i: int| 0 <= i < n - 2 implies !(#[trigger] text[i] == '\n' && text[i + 1] == '\n') by {
        assert(text[i] == front[i] && text[i + 1] == front[i + 1]);
    }
    assert(text[n - 2] == front.last());
    lemma_block_len_is(text, n);
    lemma_only_block(text);
    let read = lines(text);
    assert(read.drop_last() =~= all);
    assert(field_value(empty, "data:"@) is None);
    assert(field_value(empty, "event:"@) is None);
    lemma_one_event(
        text,
        EventText {
            event: match name {
                Some(n) => n,
                None => Seq::empty(),
            },
            data: joined(data, "\n"@),
        },
    );
}

/// A line that is not a field of that name makes no difference, wherever it
/// stands: comments, blank lines and unknown fields are passed over.
pub proof fn law_other_lines_are_passed_over(
    before: Seq<Seq<char>>,
    line: Seq<char>,
    after: Seq<Seq<char>>,
    name: Seq<char>,
)
    requires
        without_prefix(line, name) is None,
    ensures
        field_values(before.push(line) + after, name) == field_values(before + after, name),
    decreases after.len(),
{
    if after.len() == 0 {
        assert(before.push(line) + after =~= before.push(line));
        assert(before.push(line).drop_last() =~= before);
        assert(before + after =~= before);
    } else {
        assert((before.push(line) + after).drop_last() =~= before.push(line) + after.drop_last());
        assert((before + after).drop_last() =~= before + after.drop_last());
        law_other_lines_are_passed_over(before, line, after.drop_last(), name);
    }
}

/// A line feed at the end of a text ends its last line or adds a blank one, and
/// so makes no difference to the event.
proof fn lemma_line_feed(text: Seq<char>)
    requires
        text.len() > 0 ==> text.last() != '\r',
    ensures
        lines(text + seq!['\n']) == lines(text) || lines(text + seq!['\n']) == lines(text).push(
            Seq::empty(),
        ),
    decreases text.len(),
{
    let more = text + seq!['\n'];
    let empty = Seq::<char>::empty();
    lemma_line_end(text);
    lemma_first_line(empty, empty);
    assert(empty + seq!['\n'] + empty =~= seq!['\n']);
    if text.len() == 0 {
        assert(more =~= seq!['\n']);
        assert(lines(more) =~= lines(text).push(empty));
    } else if line_end(text) < text.len() {
        let n = line_end(text) as int;
        let rest = text.skip(n + 1);
        lemma_line_end_is(more, n);
        assert(more.take(n) =~= text.take(n));
        assert(more.skip(n + 1) =~= rest + seq!['\n']);
        lemma_line_feed(rest);
        assert(lines(more) =~= lines(text) || lines(more) =~= lines(text).push(empty));
    } else {
        assert(one_line(text));
        lemma_first_line(text, empty);
        assert(more =~= text + seq!['\n'] + empty);
        assert(lines(more) =~= lines(text));
    }
}

proof fn lemma_line_feed_keeps_event(text: Seq<char>)
    requires
        text.len() > 0 ==> text.last() != '\r',
    ensures
        event_of(text + seq!['\n']) == event_of(text),
{
    lemma_line_feed(text);
    reveal_strlit("data:");
    reveal_strlit("event:");
    let empty = Seq::<char>::empty();
    assert(lines(text).push(empty).drop_last() =~= lines(text));
    assert(field_value(empty, "data:"@) is None);
    assert(field_value(empty, "event:"@) is None);
}

/// What takes the place of a last line that ends in a carriage return, when a line
/// feed stands there instead.
spec fn settled(line: Seq<char>) -> Seq<char> {
    without_return(line.drop_last())
}

proof fn lemma_return_to_line_feed(front: Seq<char>)
    ensures
        ({
            let all = lines(front.push('\r'));
            &&& all.len() > 0
            &&& all.last().len() > 0
            &&& lines(front + seq!['\n']) == all.drop_last().push(settled(all.last()))
        }),
    decreases front.len(),
{
    let text = front.push('\r');
    let ended = front + seq!['\n'];
    let empty = Seq::<char>::empty();
    lemma_line_end(text);
    let n = line_end(text) as int;
    if n < text.len() {
        let shorter = front.skip(n + 1);
        assert(text.skip(n + 1) =~= shorter.push('\r'));
        assert forall|i: int| 0 <= i < n implies ended[i] != '\n' by {
            assert(ended[i] == text[i]);
        }
        lemma_line_end_is(ended, n);
        assert(ended.take(n) =~= text.take(n));
        assert(ended.skip(n + 1) =~= shorter + seq!['\n']);
        lemma_return_to_line_feed(shorter);
        assert(lines(text).drop_last() =~= lines(text).take(1) + lines(
            shorter.push('\r'),
        ).drop_last());
        assert(lines(ended) =~= lines(text).drop_last().push(settled(lines(text).last())));
    } else {
        let k = front.len() as int;
        assert forall|i: int| 0 <= i < k implies ended[i] != '\n' by {
            assert(ended[i] == text[i]);
        }
        lemma_line_end_is(ended, k);
        assert(ended.take(k) =~= front);
        assert(text.drop_last() =~= front);
        assert(ended.skip(k + 1) =~= empty);
        assert(lines(empty) =~= Seq::<Seq<char>>::empty());
        assert(lines(text) =~= seq![text]);
        assert(lines(ended) =~= lines(text).drop_last().push(settled(lines(text).last())));
    }
}

proof fn lemma_settled_is_no_field(line: Seq<char>, name: Seq<char>)
    requires
        line.len() > 0,
        field_value(line, name) is None,
    ensures
        field_value(settled(line), name) is None,
{
    let other = settled(line);
    if name.is_prefix_of(other) {
        assert(forall|i: int| 0 <= i < other.len() ==> other[i] == line[i]);
        assert(name.is_prefix_of(line));
    }
}

proof fn lemma_return_to_line_feed_keeps_event(front: Seq<char>)
    requires
        !breaks_off_in_field(front.push('\r')),
    ensures
        event_of(front + seq!['\n']) == event_of(front.push('\r')),
{
    lemma_return_to_line_feed(front);
    reveal_strlit("data:");
    reveal_strlit("event:");
    let all = lines(front.push('\r'));
    let other = all.drop_last().push(settled(all.last()));
    assert(other.drop_last() =~= all.drop_last());
    lemma_settled_is_no_field(all.last(), "data:"@);
    lemma_settled_is_no_field(all.last(), "event:"@);
}

/// The text breaks off inside the line ending of a field.
pub open spec fn breaks_off_in_field(text: Seq<char>) -> bool {
    &&& text.len() > 0
    &&& text.last() == '\r'
    &&& field_value(lines(text).last(), "data:"@) is Some || field_value(
        lines(text).last(),
        "event:"@,
    ) is Some
}

/// A stream that closes without the last blank line loses nothing: the event that
/// is given out at the end is the one that the blank line would have brought out
/// if it had arrived, and nothing more would have come. Text that breaks off
/// inside the `\r\n` of a field is left out.
pub proof fn law_end_stands_in_for_the_blank_line(waiting: Seq<char>)
    requires
        block_len(waiting) is None,
        !breaks_off_in_field(waiting),
    ensures
        events_in(blocks(continued(waiting, "\n\n"@))) == (match event_of(waiting) {
            Some(event) => seq![event],
            None => Seq::empty(),
        }),
        event_of(remainder(continued(waiting, "\n\n"@))) is None,
{
    reveal_strlit("\n\n");
    let feeds = seq!['\n', '\n'];
    let empty = Seq::<char>::empty();
    assert("\n\n"@ =~= feeds);
    assert(unified(feeds) =~= feeds) by {
        assert(feeds.skip(1).skip(1) =~= empty);
        assert(unified(empty) =~= empty);
        assert(unified(feeds.skip(1)) =~= seq!['\n']);
    }
    let front = if waiting.len() > 0 && waiting.last() == '\r' {
        waiting.drop_last()
    } else {
        waiting
    };
    let text = continued(waiting, feeds);
    assert(text == front + feeds);
    let once = front + seq!['\n'];
    if waiting.len() > 0 && waiting.last() == '\r' {
        assert(front.push('\r') =~= waiting);
        lemma_return_to_line_feed_keeps_event(front);
    } else {
        lemma_line_feed_keeps_event(front);
    }
    lemma_line_feed_keeps_event(once);
    assert(once + seq!['\n'] =~= text);
    lemma_block_len(waiting);
    let n = text.len();
    assert forall|i: int| 0 <= i < front.len() - 1 implies !(#[trigger] text[i] == '\n' && text[i + 1]
        == '\n') by {
        assert(!(waiting[i] == '\n' && waiting[i + 1] == '\n'));
    }
    let block = if front.len() > 0 && front.last() == '\n' {
        lemma_block_len_is(text, (n - 1) as nat);
        assert(text.take(n - 1) =~= once);
        assert(text.skip(n - 1) =~= seq!['\n']);
        once
    } else {
        assert forall|i: int| 0 <= i < n - 2 implies !(#[trigger] text[i] == '\n' && text[i + 1]
            == '\n') by {
            if i == front.len() - 1 {
                assert(text[i] == front.last());
            }
        }
        lemma_block_len_is(text, n);
        assert(text.take(n as int) =~= text);
        assert(text.skip(n as int) =~= empty);
        text
    };
    let rest = text.skip(block.len() as int);
    assert(block_len(rest) is None);
    assert(blocks(rest) =~= Seq::<Seq<char>>::empty());
    assert(blocks(text) =~= seq![block]);
    assert(seq![block].drop_last() =~= Seq::<Seq<char>>::empty());
    assert(events_in(seq![block].drop_last()) =~= Seq::<EventText>::empty());
    assert(events_in(seq![block]) =~= (match event_of(waiting) {
        Some(event) => seq![event],
        None => Seq::empty(),
    }));
    assert(lines(empty) =~= Seq::<Seq<char>>::empty());
    assert(field_values(Seq::<Seq<char>>::empty(), "data:"@) =~= Seq::<Seq<char>>::empty());
    assert(field_values(Seq::<Seq<char>>::empty(), "event:"@) =~= Seq::<Seq<char>>::empty());
    assert(event_of(empty) is None);
    lemma_line_feed_keeps_event(empty);
    assert(empty + seq!['\n'] =~= seq!['\n']);
    assert(remainder(rest) == rest);
    assert(remainder(text) == rest);
}

proof fn lemma_unified_last(text: Seq<char>)
    requires
        text.len() > 0,
    ensures
        unified(text).len() > 0,
        unified(text).last() == text.last(),
    decreases text.len(),
{
    if text.len() > 1 {
        lemma_unified_last(text.skip(1));
    } else {
        assert(unified(text.skip(1)) =~= Seq::<char>::empty());
    }
}

/// Unifying chunk by chunk comes to the same as unifying all at once.
proof fn lemma_continued_is_unified(text: Seq<char>, chunk: Seq<char>)
    ensures
        continued(unified(text), chunk) == unified(text + chunk),
{
    if text.len() > 0 {
        lemma_unified_last(text);
    }
    if splits_line_ending(text, chunk) {
        let front = text.drop_last();
        let ending = seq!['\r'] + chunk;
        assert(text =~= front + seq!['\r']);
        assert(text + chunk =~= front + ending);
        lemma_unified_concat(front, seq!['\r']);
        lemma_unified_concat(front, ending);
        assert(seq!['\r'].skip(1) =~= Seq::<char>::empty());
        assert(unified(Seq::<char>::empty()) =~= Seq::<char>::empty());
        assert(unified(seq!['\r']) =~= seq!['\r']);
        assert(ending.skip(1) =~= chunk);
        assert(unified(text).drop_last() =~= unified(front));
    } else {
        lemma_unified_concat(text, chunk);
    }
}

/// A carriage return completes no block.
proof fn lemma_return_is_held(text: Seq<char>)
    ensures
        blocks(text.push('\r')) == blocks(text),
        remainder(text.push('\r')) == remainder(text).push('\r'),
{
    let held = remainder(text);
    let more = held.push('\r');
    lemma_blocks_concat(text, seq!['\r']);
    assert(text + seq!['\r'] =~= text.push('\r'));
    assert(held + seq!['\r'] =~= more);
    law_no_complete_event_is_held_back(text);
    lemma_block_len(held);
    lemma_block_len(more);
    if let Some(n) = block_len(more) {
        assert(held[n - 2] == '\n' && held[n - 2 + 1] == '\n');
    }
    assert(blocks(text) + blocks(more) =~= blocks(text));
}

/// The held text can stand in for all the text so far.
proof fn lemma_continued_blocks(text: Seq<char>, chunk: Seq<char>)
    ensures
        blocks(continued(text, chunk)) == blocks(text) + blocks(
            continued(remainder(text), chunk),
        ),
        remainder(continued(text, chunk)) == remainder(continued(remainder(text), chunk)),
{
    let held = remainder(text);
    if text.len() > 0 && text.last() == '\r' {
        let front = text.drop_last();
        assert(front.push('\r') =~= text);
        lemma_return_is_held(front);
        assert(held.drop_last() =~= remainder(front));
        if splits_line_ending(text, chunk) {
            lemma_blocks_concat(front, unified(chunk));
        } else {
            lemma_blocks_concat(text, unified(chunk));
        }
    } else {
        lemma_blocks_concat(text, unified(chunk));
        law_blocks_keep_all_text(text);
        if held.len() > 0 {
            assert((blocks(text).flatten() + held).last() == held.last());
        }
    }
}

/// However a body is cut into chunks, an accumulator that starts empty yields
/// the events of the whole body and is left holding what follows the last of
/// them.
pub proof fn law_chunk_boundaries_do_not_matter(chunks: Seq<Seq<char>>)
    ensures
        fed(Seq::empty(), chunks).0 == events_in(blocks(unified(chunks.flatten()))),
        fed(Seq::empty(), chunks).1 == remainder(unified(chunks.flatten())),
    decreases chunks.len(),
{
    if chunks.len() == 0 {
        let empty = Seq::<char>::empty();
        assert(chunks =~= Seq::empty());
        assert(chunks.flatten() =~= empty);
        assert(unified(empty) =~= empty);
        assert(events_in(blocks(empty)) =~= Seq::<EventText>::empty());
    } else {
        let before = chunks.drop_last();
        let last = chunks.last();
        let text = before.flatten();
        law_chunk_boundaries_do_not_matter(before);
        assert(before.push(last) =~= chunks);
        before.lemma_flatten_push(last);
        lemma_continued_is_unified(text, last);
        lemma_continued_blocks(unified(text), last);
        lemma_events_concat(
            blocks(unified(text)),
            blocks(continued(remainder(unified(text)), last)),
        );
    }
}

/// Two chunks in a row do what one chunk of their joined text does, whatever an
/// accumulator has been fed before.
pub proof fn law_two_chunks_as_one(body: Seq<char>, a: Seq<char>, b: Seq<char>)
    ensures
        ({
            let held = remainder(unified(body));
            let after = remainder(continued(held, a));
            &&& events_in(blocks(continued(held, a + b))) == events_in(blocks(continued(held, a)))
                + events_in(blocks(continued(after, b)))
            &&& remainder(continued(held, a + b)) == remainder(continued(after, b))
        }),
{
    let text = unified(body);
    let held = remainder(text);
    let first = continued(text, a);
    lemma_continued_is_unified(body, a);
    lemma_continued_is_unified(body + a, b);
    lemma_continued_is_unified(body, a + b);
    assert(body + a + b =~= body + (a + b));
    lemma_continued_blocks(text, a);
    lemma_continued_blocks(text, a + b);
    lemma_continued_blocks(first, b);
    let whole = blocks(continued(held, a + b));
    let one = blocks(continued(held, a));
    let two = blocks(continued(remainder(continued(held, a)), b));
    assert(blocks(text) + whole =~= blocks(text) + one + two);
    assert(whole =~= one + two) by {
        let n = blocks(text).len() as int;
        assert((blocks(text) + whole).skip(n) =~= whole);
        assert((blocks(text) + one + two).skip(n) =~= one + two);
    }
    lemma_events_concat(one, two);
}

/// Unifying the line endings turns each `\r\n` into `\n`, wherever it stands.
pub proof fn law_unified_line_ending(a: Seq<char>, b: Seq<char>)
    ensures
        unified(a + seq!['\r', '\n'] + b) == unified(a) + seq!['\n'] + unified(b),
{
    let behind = seq!['\r', '\n'] + b;
    assert(a + seq!['\r', '\n'] + b =~= a + behind);
    lemma_unified_concat(a, behind);
    let rest = seq!['\n'] + b;
    assert(behind.skip(1) =~= rest);
    assert(rest.skip(1) =~= b);
    assert(unified(rest) =~= seq!['\n'] + unified(b));
    assert(unified(behind) == unified(rest));
    assert(unified(a) + (seq!['\n'] + unified(b)) =~= unified(a) + seq!['\n'] + unified(b));
}

/// Unifying the line endings changes nothing else: a text without a `\r\n` stays
/// as it is.
pub proof fn law_unified_leaves_the_rest(text: Seq<char>)
    requires
        forall|i: int| 0 <= i < text.len() - 1 ==> !(#[trigger] text[i] == '\r' && text[i + 1] == '\n'),
    ensures
        unified(text) == text,
    decreases text.len(),
{
    if text.len() > 0 {
        let rest = text.skip(1);
        assert forall|i: int| 0 <= i < rest.len() - 1 implies !(#[trigger] rest[i] == '\r' && rest[i
            + 1] == '\n') by {
            assert(rest[i] == text[i + 1]);
            assert(rest[i + 1] == text[i + 1 + 1]);
        }
        law_unified_leaves_the_rest(rest);
        assert(seq![text[0]] + rest =~= text);
        if text.len() > 1 {
            let first: int = 0;
            assert(!(text[first] == '\r' && text[first + 1] == '\n'));
        }
    }
}

/// Every block ends at its first blank line, and what is left waiting has none.
pub proof fn law_blocks_end_at_blank_lines(text: Seq<char>)
    ensures
        forall|k: int|
            0 <= k < blocks(text).len() ==> ends_at_blank_line(#[trigger] blocks(text)[k]),
        forall|i: int|
            0 <= i < remainder(text).len() - 1 ==> !(#[trigger] remainder(text)[i] == '\n'
                && remainder(text)[i + 1] == '\n'),
    decreases text.len(),
{
    lemma_block_len(text);
    if let Some(n) = block_len(text) {
        let rest = text.skip(n as int);
        let first = text.take(n as int);
        law_blocks_end_at_blank_lines(rest);
        assert forall|i: int| 0 <= i < first.len() - 2 implies !(#[trigger] first[i] == '\n'
            && first[i + 1] == '\n') by {
            assert(first[i] == text[i] && first[i + 1] == text[i + 1]);
        }
        assert(ends_at_blank_line(first));
        assert forall|k: int| 0 <= k < blocks(text).len() implies ends_at_blank_line(
            #[trigger] blocks(text)[k],
        ) by {
            if k > 0 {
                assert(blocks(text)[k] == blocks(rest)[k - 1]);
            }
        }
        assert(remainder(text) == remainder(rest));
    } else {
        assert(remainder(text) == text);
    }
}

/// The text ends in a blank line and holds no other one.
pub open spec fn ends_at_blank_line(text: Seq<char>) -> bool {
    &&& text.len() >= 2
    &&& text[text.len() - 2] == '\n' && text[text.len() - 1] == '\n'
    &&& forall|i: int|
        0 <= i < text.len() - 2 ==> !(#[trigger] text[i] == '\n' && text[i + 1] == '\n')
}

/// The events among blocks are those that the blocks stand for, one for each that
/// stands for one, in order.
pub proof fn law_events_in_order(a: Seq<Seq<char>>, b: Seq<Seq<char>>, raw: Seq<char>)
    ensures
        events_in(a + b) == events_in(a) + events_in(b),
        events_in(Seq::empty()) == Seq::<EventText>::empty(),
        events_in(seq![raw]) == (match event_of(raw) {
            Some(event) => seq![event],
            None => Seq::<EventText>::empty(),
        }),
{
    lemma_events_concat(a, b);
    let one = seq![raw];
    assert(one.drop_last() =~= Seq::<Seq<char>>::empty());
    assert(events_in(one.drop_last()) =~= Seq::<EventText>::empty());
    assert(events_in(one) =~= (match event_of(raw) {
        Some(event) => seq![event],
        None => Seq::<EventText>::empty(),
    }));
}

/// The line is a field of that name.
pub open spec fn is_field(line: Seq<char>, name: Seq<char>) -> bool {
    name.is_prefix_of(line)
}

/// What a field holds: what follows its name, without one space in front.
pub open spec fn held_by(line: Seq<char>, name: Seq<char>) -> Seq<char> {
    let rest = line.skip(name.len() as int);
    if rest.len() > 0 && rest[0] == ' ' {
        rest.skip(1)
    } else {
        rest
    }
}

proof fn lemma_field_value(line: Seq<char>, name: Seq<char>)
    ensures
        field_value(line, name) == (if is_field(line, name) {
            Some(held_by(line, name))
        } else {
            None
        }),
{
    reveal_strlit(" ");
    let rest = line.skip(name.len() as int);
    if rest.len() > 0 {
        assert(rest.subrange(0, 1)[0] == rest[0]);
        assert(" "@[0] == ' ');
        if rest[0] == ' ' {
            assert(" "@ =~= rest.subrange(0, 1));
        }
    }
}

proof fn lemma_has_values(all: Seq<Seq<char>>, name: Seq<char>)
    ensures
        field_values(all, name).len() > 0 <==> exists|i: int|
            0 <= i < all.len() && is_field(#[trigger] all[i], name),
    decreases all.len(),
{
    if all.len() > 0 {
        let before = all.drop_last();
        lemma_has_values(before, name);
        lemma_field_value(all.last(), name);
        if field_values(before, name).len() > 0 {
            let i = choose|i: int| 0 <= i < before.len() && is_field(#[trigger] before[i], name);
            assert(is_field(all[i], name));
        }
        if is_field(all.last(), name) {
            assert(is_field(all[all.len() - 1], name));
        }
        if exists|i: int| 0 <= i < all.len() && is_field(#[trigger] all[i], name) {
            let i = choose|i: int| 0 <= i < all.len() && is_field(#[trigger] all[i], name);
            if i < before.len() {
                assert(is_field(before[i], name));
            }
        }
    }
}

/// A block stands for an event exactly where one of its lines is a `data:` or an
/// `event:` field.
pub proof fn law_fields_make_an_event(raw: Seq<char>)
    ensures
        event_of(raw) is Some <==> exists|i: int|
            0 <= i < lines(raw).len() && (is_field(#[trigger] lines(raw)[i], "data:"@) || is_field(
                lines(raw)[i],
                "event:"@,
            )),
{
    let all = lines(raw);
    lemma_has_values(all, "data:"@);
    lemma_has_values(all, "event:"@);
    if field_values(all, "data:"@).len() > 0 {
        let i = choose|i: int| 0 <= i < all.len() && is_field(#[trigger] all[i], "data:"@);
        assert(is_field(all[i], "data:"@));
    }
    if field_values(all, "event:"@).len() > 0 {
        let i = choose|i: int| 0 <= i < all.len() && is_field(#[trigger] all[i], "event:"@);
        assert(is_field(all[i], "event:"@));
    }
}

/// A line that is neither a `data:` nor an `event:` field can stand anywhere in a
/// block without changing the event: a comment, a blank line, `id:`, `retry:` or
/// an unknown field.
pub proof fn law_other_lines_change_no_event(
    fewer: Seq<char>,
    more: Seq<char>,
    before: Seq<Seq<char>>,
    line: Seq<char>,
    after: Seq<Seq<char>>,
)
    requires
        lines(fewer) == before + after,
        lines(more) == before.push(line) + after,
        !is_field(line, "data:"@),
        !is_field(line, "event:"@),
    ensures
        event_of(more) == event_of(fewer),
{
    law_other_lines_are_passed_over(before, line, after, "data:"@);
    law_other_lines_are_passed_over(before, line, after, "event:"@);
}

/// The name and the data of an event, or nothing where there is none.
pub open spec fn name_and_data(event: Option<EventText>) -> (Seq<char>, Seq<char>) {
    match event {
        Some(e) => (e.event, e.data),
        None => (Seq::empty(), Seq::empty()),
    }
}

/// One more line at the end of a block: a `data:` field adds its value to the data,
/// on a new line where there was data before; an `event:` field sets the name.
/// Nothing else changes.
pub proof fn law_one_more_line(shorter: Seq<char>, longer: Seq<char>, line: Seq<char>)
    requires
        lines(longer) == lines(shorter).push(line),
    ensures
        ({
            let (name, data) = name_and_data(event_of(shorter));
            let had_data = exists|i: int|
                0 <= i < lines(shorter).len() && is_field(#[trigger] lines(shorter)[i], "data:"@);
            &&& is_field(line, "data:"@) ==> event_of(longer) == Some(
                EventText {
                    event: name,
                    data: if had_data {
                        data + seq!['\n'] + held_by(line, "data:"@)
                    } else {
                        held_by(line, "data:"@)
                    },
                },
            )
            &&& is_field(line, "event:"@) ==> event_of(longer) == Some(
                EventText { event: held_by(line, "event:"@), data },
            )
            &&& !is_field(line, "data:"@) && !is_field(line, "event:"@) ==> event_of(longer)
                == event_of(shorter)
        }),
{
    reveal_strlit("\n");
    reveal_strlit("data:");
    reveal_strlit("event:");
    assert("\n"@ =~= seq!['\n']);
    let all = lines(shorter);
    assert(all.push(line).drop_last() =~= all);
    lemma_field_value(line, "data:"@);
    lemma_field_value(line, "event:"@);
    lemma_has_values(all, "data:"@);
    let values = field_values(all, "data:"@);
    let value = held_by(line, "data:"@);
    if is_field(line, "data:"@) {
        assert("data:"@[0] == 'd' && "event:"@[0] == 'e');
        assert("data:"@[0] == line.subrange(0, 5)[0]);
        if is_field(line, "event:"@) {
            assert("event:"@[0] == line.subrange(0, 6)[0]);
        }
        assert(values.push(value).drop_last() =~= values);
        if values.len() == 0 {
            assert(values.push(value) =~= seq![value]);
        }
        assert(joined(values.push(value), "\n"@) =~= if values.len() > 0 {
            joined(values, "\n"@) + seq!['\n'] + value
        } else {
            value
        });
    }
}

/// A block without lines stands for no event.
pub proof fn law_no_lines_no_event(raw: Seq<char>)
    requires
        lines(raw).len() == 0,
    ensures
        event_of(raw) is None,
{
}

} // verus!
