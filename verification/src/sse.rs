//! Server-Sent Events: one event out of its lines, and whole events out of a
//! body that arrives in chunks.

use vstd::prelude::*;
use vstd::string::*;

use crate::text::{
    chars_of, join, joined, lines, lines_of, strip_prefix, texts, without_prefix,
};

verus! {

/// One parsed Server-Sent Event.
#[derive(Debug, PartialEq, Eq)]
pub struct SseEvent {
    /// The value of the `event:` field, empty where there is none.
    pub event: String,
    /// The values of the `data:` fields, joined by line feeds. Sentinels such as
    /// `[DONE]` stay as they came.
    pub data: String,
}

/// The texts of an event.
#[verifier::ext_equal]
pub ghost struct EventText {
    pub event: Seq<char>,
    pub data: Seq<char>,
}

impl View for SseEvent {
    type V = EventText;

    open spec fn view(&self) -> EventText {
        EventText { event: self.event@, data: self.data@ }
    }
}

impl Clone for SseEvent {
    fn clone(&self) -> (r: Self)
        ensures
            r@ == self@,
    {
        SseEvent { event: self.event.clone(), data: self.data.clone() }
    }
}

impl Default for SseEvent {
    fn default() -> (r: Self)
        ensures
            r.event@ == Seq::<char>::empty(),
            r.data@ == Seq::<char>::empty(),
    {
        SseEvent { event: String::new(), data: String::new() }
    }
}

/// Collects the text of a response body and yields each event once its blank
/// line has arrived, however the body is cut into chunks; what follows the last
/// blank line waits for the next chunk.
#[derive(Debug)]
pub struct SseAccumulator {
    buf: String,
}

impl View for SseAccumulator {
    type V = Seq<char>;

    /// The text that waits for its blank line.
    closed spec fn view(&self) -> Seq<char> {
        self.buf@
    }
}

impl Default for SseAccumulator {
    fn default() -> (r: Self)
        ensures
            r@ == Seq::<char>::empty(),
    {
        SseAccumulator::new()
    }
}

/// The value of the field `name` (colon included) on a line: what follows the
/// colon, without one leading space.
pub open spec fn field_value(line: Seq<char>, name: Seq<char>) -> Option<Seq<char>> {
    match without_prefix(line, name) {
        Some(rest) => match without_prefix(rest, " "@) {
            Some(value) => Some(value),
            None => Some(rest),
        },
        None => None,
    }
}

/// The values of all the fields `name` among the lines, in order.
pub open spec fn field_values(lines: Seq<Seq<char>>, name: Seq<char>) -> Seq<Seq<char>>
    decreases lines.len(),
{
    if lines.len() == 0 {
        Seq::empty()
    } else {
        match field_value(lines.last(), name) {
            Some(value) => field_values(lines.drop_last(), name).push(value),
            None => field_values(lines.drop_last(), name),
        }
    }
}

/// The event that a block of lines stands for. A block without a `data:` and
/// without an `event:` field stands for none; of several `event:` fields the
/// last one counts.
pub open spec fn event_of(raw: Seq<char>) -> Option<EventText> {
    let data = field_values(lines(raw), "data:"@);
    let names = field_values(lines(raw), "event:"@);
    if data.len() == 0 && names.len() == 0 {
        None
    } else {
        Some(
            EventText {
                event: if names.len() > 0 {
                    names.last()
                } else {
                    Seq::empty()
                },
                data: joined(data, "\n"@),
            },
        )
    }
}

/// The length of the shortest prefix of `text` that ends in a blank line.
pub open spec fn block_len(text: Seq<char>) -> Option<nat>
    decreases text.len(),
{
    if text.len() < 2 {
        None
    } else if text[0] == '\n' && text[1] == '\n' {
        Some(2)
    } else {
        match block_len(text.skip(1)) {
            Some(n) => Some(n + 1),
            None => None,
        }
    }
}

/// The blocks of `text`, each with the blank line that ends it.
pub open spec fn blocks(text: Seq<char>) -> Seq<Seq<char>>
    decreases text.len(),
{
    match block_len(text) {
        Some(n) => if 0 < n <= text.len() {
            seq![text.take(n as int)] + blocks(text.skip(n as int))
        } else {
            Seq::empty()
        },
        None => Seq::empty(),
    }
}

/// What follows the last block of `text`.
pub open spec fn remainder(text: Seq<char>) -> Seq<char>
    decreases text.len(),
{
    match block_len(text) {
        Some(n) => if 0 < n <= text.len() {
            remainder(text.skip(n as int))
        } else {
            text
        },
        None => text,
    }
}

/// `text` with every `\r\n` replaced by `\n`.
pub open spec fn unified(text: Seq<char>) -> Seq<char>
    decreases text.len(),
{
    if text.len() == 0 {
        Seq::empty()
    } else if text.len() > 1 && text[0] == '\r' && text[1] == '\n' {
        unified(text.skip(1))
    } else {
        seq![text[0]] + unified(text.skip(1))
    }
}

/// The boundary between `a` and `b` falls inside a `\r\n`.
pub open spec fn splits_line_ending(a: Seq<char>, b: Seq<char>) -> bool {
    a.len() > 0 && b.len() > 0 && a.last() == '\r' && b[0] == '\n'
}

/// The text that is held when a chunk arrives, followed by the chunk, with every
/// `\r\n` replaced by `\n`: also one that the boundary cuts in two.
pub open spec fn continued(held: Seq<char>, chunk: Seq<char>) -> Seq<char> {
    if splits_line_ending(held, chunk) {
        held.drop_last() + unified(chunk)
    } else {
        held + unified(chunk)
    }
}

/// The events among the blocks, in order.
pub open spec fn events_in(blocks: Seq<Seq<char>>) -> Seq<EventText>
    decreases blocks.len(),
{
    if blocks.len() == 0 {
        Seq::empty()
    } else {
        match event_of(blocks.last()) {
            Some(event) => events_in(blocks.drop_last()).push(event),
            None => events_in(blocks.drop_last()),
        }
    }
}

/// The texts of a sequence of events.
pub open spec fn event_texts(events: Seq<SseEvent>) -> Seq<EventText> {
    events.map_values(|e: SseEvent| e@)
}

/// What the length of a block says of the text.
pub proof fn lemma_block_len(text: Seq<char>)
    ensures
        match block_len(text) {
            Some(n) => {
                &&& 2 <= n <= text.len()
                &&& text[n - 2] == '\n' && text[n - 1] == '\n'
                &&& forall|i: int| 0 <= i < n - 2 ==> !(#[trigger] text[i] == '\n' && text[i + 1] == '\n')
            },
            None => forall|i: int|
                0 <= i < text.len() - 1 ==> !(#[trigger] text[i] == '\n' && text[i + 1] == '\n'),
        },
    decreases text.len(),
{
    if text.len() >= 2 && !(text[0] == '\n' && text[1] == '\n') {
        let rest = text.skip(1);
        lemma_block_len(rest);
        let bound = match block_len(text) {
            Some(n) => n - 2,
            None => text.len() - 1,
        };
        assert forall|i: int| 0 <= i < bound implies !(#[trigger] text[i] == '\n' && text[i + 1]
            == '\n') by {
            if i > 0 {
                assert(rest[i - 1] == text[i]);
                assert(rest[i] == text[i + 1]);
            }
        }
    }
}

/// The length of a block is settled by its properties.
pub proof fn lemma_block_len_is(text: Seq<char>, n: nat)
    requires
        2 <= n <= text.len(),
        text[n - 2] == '\n' && text[n - 1] == '\n',
        forall|i: int| 0 <= i < n - 2 ==> !(#[trigger] text[i] == '\n' && text[i + 1] == '\n'),
    ensures
        block_len(text) == Some(n),
{
    lemma_block_len(text);
    match block_len(text) {
        Some(m) => {
            if m < n {
                assert(!(text[m - 2] == '\n' && text[m - 2 + 1] == '\n'));
            } else if n < m {
                assert(!(text[n - 2] == '\n' && text[n - 2 + 1] == '\n'));
            }
        },
        None => {
            assert(!(text[n - 2] == '\n' && text[n - 2 + 1] == '\n'));
        },
    }
}

/// `chunk` with every `\r\n` replaced by `\n`.
fn unify(chunk: &str) -> (r: String)
    ensures
        r@ == unified(chunk@),
{
    let chars = chars_of(chunk);
    let mut r = String::new();
    let mut start: usize = 0;
    let mut i: usize = 0;
    assert(chunk@.skip(0) =~= chunk@);
    assert(chunk@.subrange(0, 0) =~= Seq::empty());
    while i < chars.len()
        invariant
            start <= i <= chars.len(),
            chars@ == chunk@,
            r@ + chunk@.subrange(start as int, i as int) + unified(chunk@.skip(i as int)) =~= unified(chunk@),
        decreases chars.len() - i,
    {
        let ghost tail = chunk@.skip(i as int);
        assert(tail.skip(1) =~= chunk@.skip(i + 1));
        if i + 1 < chars.len() && chars[i] == '\r' && chars[i + 1] == '\n' {
            assert(tail[0] == '\r' && tail[1] == '\n');
            r.append(chunk.substring_char(start, i));
            start = i + 1;
        } else {
            assert(unified(tail) == seq![tail[0]] + unified(tail.skip(1)));
        }
        i += 1;
    }
    assert(unified(chunk@.skip(i as int)) =~= Seq::empty());
    r.append(chunk.substring_char(start, chars.len()));
    r
}

/// Whether the boundary between `a` and `b` falls inside a `\r\n`.
fn cuts_line_ending(a: &str, b: &str) -> (r: bool)
    ensures
        r == splits_line_ending(a@, b@),
{
    let front = chars_of(a);
    let back = chars_of(b);
    front.len() > 0 && back.len() > 0 && front[front.len() - 1] == '\r' && back[0] == '\n'
}

/// The text without its last character.
fn without_last(text: &str) -> (r: String)
    requires
        text@.len() > 0,
    ensures
        r@ == text@.drop_last(),
{
    let chars = chars_of(text);
    text.substring_char(0, chars.len() - 1).to_owned()
}

/// Cuts `text` into its blocks and what follows the last of them.
pub fn split_blocks(text: &str) -> (r: (Vec<String>, String))
    ensures
        texts(r.0@) == blocks(text@),
        r.1@ == remainder(text@),
{
    let chars = chars_of(text);
    let mut found: Vec<String> = Vec::new();
    let mut start: usize = 0;
    let mut i: usize = 0;
    assert(text@.skip(0) =~= text@);
    while chars.len() - i > 1
        invariant
            start <= i <= chars.len(),
            chars@ == text@,
            texts(found@) + blocks(text@.skip(start as int)) =~= blocks(text@),
            remainder(text@.skip(start as int)) == remainder(text@),
            forall|j: int| start <= j < i ==> !(#[trigger] text@[j] == '\n' && text@[j + 1] == '\n'),
        decreases chars.len() - i,
    {
        if chars[i] == '\n' && chars[i + 1] == '\n' {
            let ghost rest = text@.skip(start as int);
            let ghost n = (i + 2 - start) as nat;
            let ghost before = found@;
            proof {
                assert forall|j: int| 0 <= j < n - 2 implies !(#[trigger] rest[j] == '\n' && rest[j
                    + 1] == '\n') by {
                    assert(text@[start + j] == rest[j]);
                }
                lemma_block_len_is(rest, n);
                assert(rest.skip(n as int) =~= text@.skip(i + 2));
                assert(rest.take(n as int) =~= text@.subrange(start as int, i + 2));
            }
            found.push(text.substring_char(start, i + 2).to_owned());
            proof {
                assert(texts(found@) =~= texts(before).push(rest.take(n as int)));
            }
            i += 2;
            start = i;
        } else {
            i += 1;
        }
    }
    let ghost rest = text@.skip(start as int);
    proof {
        lemma_block_len(rest);
        if block_len(rest) is Some {
            let n = block_len(rest)->0;
            assert(rest[n - 2] == text@[start + n - 2]);
            assert(rest[n - 1] == text@[start + n - 2 + 1]);
        }
    }
    (found, text.substring_char(start, chars.len()).to_owned())
}

/// The value of the field `name` on a line.
fn field<'a>(line: &'a str, name: &str) -> (r: Option<&'a str>)
    ensures
        match r {
            Some(value) => field_value(line@, name@) == Some(value@),
            None => field_value(line@, name@) is None,
        },
{
    match strip_prefix(line, name) {
        Some(rest) => match strip_prefix(rest, " ") {
            Some(value) => Some(value),
            None => Some(rest),
        },
        None => None,
    }
}

/// The event that a block of lines stands for.
pub fn parse_event(raw: &str) -> (r: Option<SseEvent>)
    ensures
        match r {
            Some(event) => event_of(raw@) == Some(event@),
            None => event_of(raw@) is None,
        },
{
    let all = lines_of(raw);
    let ghost seen = texts(all@);
    let mut data: Vec<String> = Vec::new();
    let mut event = String::new();
    let mut has_field = false;
    let mut i: usize = 0;
    while i < all.len()
        invariant
            i <= all.len(),
            seen == texts(all@),
            texts(data@) == field_values(seen.take(i as int), "data:"@),
            ({
                let names = field_values(seen.take(i as int), "event:"@);
                &&& event@ == (if names.len() > 0 { names.last() } else { Seq::<char>::empty() })
                &&& has_field == (data@.len() > 0 || names.len() > 0)
            }),
        decreases all.len() - i,
    {
        let line = all[i].as_str();
        let ghost before = data@;
        proof {
            assert(seen.take(i + 1).drop_last() =~= seen.take(i as int));
            assert(seen.take(i + 1).last() == line@);
            reveal_strlit("data:");
            reveal_strlit("event:");
            // No line starts with both names.
            if without_prefix(line@, "data:"@) is Some && without_prefix(line@, "event:"@) is Some {
                assert(line@[0] == "data:"@[0]);
                assert(line@[0] == "event:"@[0]);
            }
        }
        if let Some(value) = field(line, "data:") {
            data.push(value.to_owned());
            has_field = true;
            assert(texts(data@) =~= texts(before).push(value@));
        } else if let Some(value) = field(line, "event:") {
            event = value.to_owned();
            has_field = true;
        }
        i += 1;
    }
    assert(seen.take(i as int) =~= seen);
    if !has_field {
        return None;
    }
    Some(SseEvent { event, data: join(&data, "\n") })
}

impl SseAccumulator {
    /// An accumulator that nothing has been fed to.
    pub fn new() -> (r: Self)
        ensures
            r@ == Seq::<char>::empty(),
    {
        Self { buf: String::new() }
    }

    /// Takes in a chunk of the response body and returns every event that it
    /// completes.
    pub fn push(&mut self, chunk: &str) -> (events: Vec<SseEvent>)
        ensures
            event_texts(events@) == events_in(blocks(continued(old(self)@, chunk@))),
            final(self)@ == remainder(continued(old(self)@, chunk@)),
    {
        if cuts_line_ending(self.buf.as_str(), chunk) {
            self.buf = without_last(self.buf.as_str());
        }
        self.buf.append(unify(chunk).as_str());
        let (found, rest) = split_blocks(self.buf.as_str());
        self.buf = rest;
        let ghost all = texts(found@);
        let mut events: Vec<SseEvent> = Vec::new();
        let mut i: usize = 0;
        while i < found.len()
            invariant
                i <= found.len(),
                all == texts(found@),
                event_texts(events@) == events_in(all.take(i as int)),
            decreases found.len() - i,
        {
            let ghost before = events@;
            proof {
                assert(all.take(i + 1).drop_last() =~= all.take(i as int));
                assert(all.take(i + 1).last() == found@[i as int]@);
            }
            if let Some(event) = parse_event(found[i].as_str()) {
                events.push(event);
                assert(event_texts(events@) =~= event_texts(before).push(event@));
            }
            i += 1;
        }
        assert(all.take(i as int) =~= all);
        events
    }

    /// Gives out the event that was left without its blank line, which some
    /// servers omit before they close the connection.
    pub fn finish(&mut self) -> (event: Option<SseEvent>)
        ensures
            match event {
                Some(e) => event_of(old(self)@) == Some(e@),
                None => event_of(old(self)@) is None,
            },
            final(self)@ == Seq::<char>::empty(),
    {
        let mut raw = String::new();
        std::mem::swap(&mut raw, &mut self.buf);
        parse_event(raw.as_str())
    }
}

/// All the events that come out of feeding `chunks` one by one to an accumulator
/// that holds `buf`, and what it holds then.
pub open spec fn fed(buf: Seq<char>, chunks: Seq<Seq<char>>) -> (Seq<EventText>, Seq<char>)
    decreases chunks.len(),
{
    if chunks.len() == 0 {
        (Seq::empty(), buf)
    } else {
        let (events, held) = fed(buf, chunks.drop_last());
        let text = continued(held, chunks.last());
        (events + events_in(blocks(text)), remainder(text))
    }
}

/// The ends of lines are unified on both sides of a boundary that falls between
/// them.
pub proof fn lemma_unified_concat(a: Seq<char>, b: Seq<char>)
    requires
        !splits_line_ending(a, b),
    ensures
        unified(a + b) == unified(a) + unified(b),
    decreases a.len(),
{
    if a.len() == 0 {
        assert(a + b =~= b);
        assert(unified(a) + unified(b) =~= unified(b));
    } else {
        let rest = a.skip(1);
        assert((a + b).skip(1) =~= rest + b);
        if rest.len() > 0 {
            assert(rest.last() == a.last());
            assert((a + b)[1] == a[1]);
        } else if b.len() > 0 {
            assert((a + b)[1] == b[0]);
            assert(a.last() == a[0]);
        }
        lemma_unified_concat(rest, b);
        assert(unified(a + b) =~= unified(a) + unified(b));
    }
}

/// The blocks of a joined text are those of its front, and those that its end
/// completes.
pub proof fn lemma_blocks_concat(a: Seq<char>, b: Seq<char>)
    ensures
        blocks(a + b) == blocks(a) + blocks(remainder(a) + b),
        remainder(a + b) == remainder(remainder(a) + b),
    decreases a.len(),
{
    lemma_block_len(a);
    match block_len(a) {
        Some(n) => {
            let whole = a + b;
            assert forall|i: int| 0 <= i < n - 2 implies !(#[trigger] whole[i] == '\n' && whole[i + 1]
                == '\n') by {
                assert(!(a[i] == '\n' && a[i + 1] == '\n'));
            }
            lemma_block_len_is(whole, n);
            let rest = a.skip(n as int);
            assert(whole.skip(n as int) =~= rest + b);
            assert(whole.take(n as int) =~= a.take(n as int));
            lemma_blocks_concat(rest, b);
            assert(blocks(whole) =~= blocks(a) + blocks(remainder(a) + b));
        },
        None => {
            assert(blocks(a) + blocks(a + b) =~= blocks(a + b));
        },
    }
}

/// The events among joined blocks are those among each part.
pub proof fn lemma_events_concat(a: Seq<Seq<char>>, b: Seq<Seq<char>>)
    ensures
        events_in(a + b) == events_in(a) + events_in(b),
    decreases b.len(),
{
    if b.len() == 0 {
        assert(a + b =~= a);
        assert(events_in(a) + events_in(b) =~= events_in(a));
    } else {
        assert((a + b).drop_last() =~= a + b.drop_last());
        lemma_events_concat(a, b.drop_last());
        assert(events_in(a + b) =~= events_in(a) + events_in(b));
    }
}

/// No text is lost or made up: the blocks and what is left waiting are the text
/// that came in.
pub proof fn law_blocks_keep_all_text(text: Seq<char>)
    ensures
        blocks(text).flatten() + remainder(text) == text,
    decreases text.len(),
{
    lemma_block_len(text);
    match block_len(text) {
        Some(n) => {
            let rest = text.skip(n as int);
            law_blocks_keep_all_text(rest);
            let first = text.take(n as int);
            assert(blocks(text).drop_first() =~= blocks(rest));
            assert(blocks(text).flatten() =~= first + blocks(rest).flatten());
            assert(blocks(text).flatten() + remainder(text) =~= first + (blocks(rest).flatten()
                + remainder(rest)));
            assert(first + rest =~= text);
        },
        None => {
            assert(blocks(text).flatten() =~= Seq::<char>::empty());
            assert(blocks(text).flatten() + remainder(text) =~= text);
        },
    }
}

/// What is left waiting holds no blank line: no complete event is held back.
pub proof fn law_no_complete_event_is_held_back(text: Seq<char>)
    ensures
        block_len(remainder(text)) is None,
        blocks(remainder(text)) == Seq::<Seq<char>>::empty(),
    decreases text.len(),
{
    lemma_block_len(text);
    if let Some(n) = block_len(text) {
        law_no_complete_event_is_held_back(text.skip(n as int));
    }
}

} // verus!
