//! The progress of a model load, out of the event feed of the router.

use vstd::prelude::*;
use vstd::string::*;
use vstd::utf8::*;

use crate::json::{member, number_tree, parsed, string_of, zero_number, Json, Num, Tree};
use crate::request::nested;
use crate::sse::{blocks, lemma_blocks_concat, remainder, split_blocks};
use crate::text::{
    lemma_line_end_is, lines, lines_of, same_text, strip_prefix, texts, without_prefix,
    without_return,
};

verus! {

/// The text that `String::from_utf8_lossy` gives for bytes.
pub uninterp spec fn lossy_text(bytes: Seq<u8>) -> Seq<char>;

/// `String::from_utf8_lossy`: the text that the bytes encode, where they are
/// UTF-8. What stands for the bytes that are not is left unsaid.
#[verifier::external_body]
fn from_utf8_lossy(bytes: &[u8]) -> (r: String)
    ensures
        r@ == lossy_text(bytes@),
        valid_utf8(bytes@) ==> r@ == decode_utf8(bytes@),
{
    String::from_utf8_lossy(bytes).into_owned()
}

/// How far the load of a model has come. A router counts `value` from 0 to 1.
pub struct LoadProgressPayload {
    pub model: String,
    pub stage: Option<String>,
    pub value: serde_json::Number,
}

/// How far the load of a model has come, as mathematical values.
pub ghost struct Progress {
    pub model: Seq<char>,
    pub stage: Option<Seq<char>>,
    pub value: Num,
}

impl View for LoadProgressPayload {
    type V = Progress;

    open spec fn view(&self) -> Progress {
        Progress {
            model: self.model@,
            stage: match self.stage {
                Some(stage) => Some(stage@),
                None => None,
            },
            value: number_tree(self.value),
        }
    }
}

impl Clone for LoadProgressPayload {
    fn clone(&self) -> (r: Self)
        ensures
            r@ == self@,
    {
        LoadProgressPayload {
            model: self.model.clone(),
            stage: match &self.stage {
                Some(stage) => Some(stage.clone()),
                None => None,
            },
            value: self.value.clone(),
        }
    }
}

/// What a line of an event block comes to.
pub enum LineVerdict {
    /// The block says nothing about the progress.
    Stop,
    /// The line says nothing about the progress.
    Skip,
    /// The line tells of progress.
    Report(LoadProgressPayload),
}

/// What a line of an event block comes to, as mathematical values.
pub ghost enum VerdictView {
    Stop,
    Skip,
    Report(Progress),
}

impl View for LineVerdict {
    type V = VerdictView;

    open spec fn view(&self) -> VerdictView {
        match *self {
            LineVerdict::Stop => VerdictView::Stop,
            LineVerdict::Skip => VerdictView::Skip,
            LineVerdict::Report(payload) => VerdictView::Report(payload@),
        }
    }
}

/// The number of a value, where it is one.
pub open spec fn number_of(tree: Option<Tree>) -> Option<Num> {
    match tree {
        Some(Tree::Number(n)) => Some(n),
        _ => None,
    }
}

/// What a progress object tells of the load of a model. Without a number as its
/// value it tells of none yet.
pub open spec fn progress_report(progress: Tree, model_id: Seq<char>) -> Progress {
    Progress {
        model: model_id,
        stage: string_of(member(progress, "current"@)),
        value: match number_of(member(progress, "value"@)) {
            Some(n) => n,
            None => Num::Int(0),
        },
    }
}

/// What the data of an event comes to, for the load of a model.
pub open spec fn data_verdict(data: Tree, model_id: Seq<char>) -> VerdictView {
    if string_of(member(data, "model"@)) != Some(model_id) || string_of(member(data, "event"@))
        != Some("status_change"@) {
        VerdictView::Skip
    } else {
        match nested(member(data, "data"@), "progress"@) {
            None => VerdictView::Stop,
            Some(Tree::Null) => VerdictView::Skip,
            Some(progress) => VerdictView::Report(progress_report(progress, model_id)),
        }
    }
}

/// The data on a line.
pub open spec fn data_on(line: Seq<char>) -> Option<Seq<char>> {
    match without_prefix(line, "data: "@) {
        Some(data) => Some(data),
        None => without_prefix(line, "data:"@),
    }
}

/// What a line comes to. Lines other than `data` lines are passed over; data that
/// is not JSON ends the block.
pub open spec fn line_verdict(line: Seq<char>, model_id: Seq<char>) -> VerdictView {
    match data_on(line) {
        Some(data) => match parsed(data) {
            Some(json) => data_verdict(json, model_id),
            None => VerdictView::Stop,
        },
        None => VerdictView::Skip,
    }
}

/// The progress that the first of the lines tells of that is not skipped.
pub open spec fn first_report(verdicts: Seq<VerdictView>) -> Option<Progress>
    decreases verdicts.len(),
{
    if verdicts.len() == 0 {
        None
    } else {
        match verdicts[0] {
            VerdictView::Stop => None,
            VerdictView::Skip => first_report(verdicts.skip(1)),
            VerdictView::Report(progress) => Some(progress),
        }
    }
}

/// What each of the lines comes to.
pub open spec fn line_verdicts(lines: Seq<Seq<char>>, model_id: Seq<char>) -> Seq<VerdictView> {
    lines.map_values(|line: Seq<char>| line_verdict(line, model_id))
}

/// The progress that an event block tells of.
pub open spec fn progress_of(block: Seq<char>, model_id: Seq<char>) -> Option<Progress> {
    first_report(line_verdicts(lines(block), model_id))
}

/// The progress that the blocks tell of, in order.
pub open spec fn reports_in(blocks: Seq<Seq<char>>, model_id: Seq<char>) -> Seq<Progress>
    decreases blocks.len(),
{
    if blocks.len() == 0 {
        Seq::empty()
    } else {
        match progress_of(blocks.last(), model_id) {
            Some(progress) => reports_in(blocks.drop_last(), model_id).push(progress),
            None => reports_in(blocks.drop_last(), model_id),
        }
    }
}

/// The payloads as mathematical values.
pub open spec fn payload_views(payloads: Seq<LoadProgressPayload>) -> Seq<Progress> {
    payloads.map_values(|p: LoadProgressPayload| p@)
}

/// Whether the member of that name is the given text.
fn member_is(json: &Json, name: &str, text: &str) -> (r: bool)
    ensures
        r == (string_of(member(json@, name@)) == Some(text@)),
{
    match json.get(name) {
        Some(value) => match value.as_str() {
            Some(s) => same_text(s, text),
            None => false,
        },
        None => false,
    }
}

/// What a progress object tells of the load of a model.
fn report(progress: &Json, model_id: &str) -> (r: LoadProgressPayload)
    ensures
        r@ == progress_report(progress@, model_id@),
{
    let value = match progress.get("value") {
        Some(Json::Number(n)) => n.clone(),
        _ => zero_number(),
    };
    let stage = match progress.get("current") {
        Some(current) => match current.as_str() {
            Some(s) => Some(s.to_owned()),
            None => None,
        },
        None => None,
    };
    LoadProgressPayload { model: model_id.to_owned(), stage, value }
}

/// What the data of an event comes to, for the load of a model.
pub fn judge_data(json: &Json, model_id: &str) -> (r: LineVerdict)
    ensures
        r@ == data_verdict(json@, model_id@),
{
    if !member_is(json, "model", model_id) {
        return LineVerdict::Skip;
    }
    if !member_is(json, "event", "status_change") {
        return LineVerdict::Skip;
    }
    let progress = match json.get("data") {
        Some(data) => data.get("progress"),
        None => None,
    };
    match progress {
        None => LineVerdict::Stop,
        Some(Json::Null) => LineVerdict::Skip,
        Some(progress) => LineVerdict::Report(report(progress, model_id)),
    }
}

/// What a line comes to.
fn judge_line(line: &str, model_id: &str) -> (r: LineVerdict)
    ensures
        r@ == line_verdict(line@, model_id@),
{
    let data = match strip_prefix(line, "data: ") {
        Some(data) => Some(data),
        None => strip_prefix(line, "data:"),
    };
    match data {
        Some(data) => match Json::parse(data) {
            Some(json) => judge_data(&json, model_id),
            None => LineVerdict::Stop,
        },
        None => LineVerdict::Skip,
    }
}

/// The progress that an event block tells of the load of a model: `None` for
/// other events, other models and malformed input.
pub fn parse_load_progress_event(block: &str, model_id: &str) -> (r: Option<LoadProgressPayload>)
    ensures
        match r {
            Some(payload) => progress_of(block@, model_id@) == Some(payload@),
            None => progress_of(block@, model_id@) is None,
        },
{
    let all = lines_of(block);
    let ghost verdicts = line_verdicts(texts(all@), model_id@);
    let mut i: usize = 0;
    assert(verdicts.skip(0) =~= verdicts);
    while i < all.len()
        invariant
            i <= all.len(),
            verdicts == line_verdicts(texts(all@), model_id@),
            first_report(verdicts) == progress_of(block@, model_id@),
            first_report(verdicts.skip(i as int)) == first_report(verdicts),
        decreases all.len() - i,
    {
        proof {
            assert(verdicts.skip(i as int)[0] == line_verdict(all@[i as int]@, model_id@));
            assert(verdicts.skip(i as int).skip(1) =~= verdicts.skip(i + 1));
        }
        match judge_line(all[i].as_str(), model_id) {
            LineVerdict::Stop => {
                return None;
            },
            LineVerdict::Skip => {},
            LineVerdict::Report(payload) => {
                return Some(payload);
            },
        }
        i += 1;
    }
    None
}

/// Listens to the event feed for the load of one model.
pub struct LoadProgressListener {
    model_id: String,
    buf: String,
}

/// A listener as mathematical values: its model, and the text that waits for its
/// blank line.
pub ghost struct ListenerView {
    pub model_id: Seq<char>,
    pub waiting: Seq<char>,
}

impl View for LoadProgressListener {
    type V = ListenerView;

    closed spec fn view(&self) -> ListenerView {
        ListenerView { model_id: self.model_id@, waiting: self.buf@ }
    }
}

impl LoadProgressListener {
    /// A listener that nothing has come in for.
    pub fn new(model_id: String) -> (r: Self)
        ensures
            r@ == (ListenerView { model_id: model_id@, waiting: Seq::empty() }),
    {
        LoadProgressListener { model_id, buf: String::new() }
    }

    /// Takes in a piece of the feed and returns the progress that the blocks it
    /// completes tell of.
    pub fn push_text(&mut self, text: &str) -> (r: Vec<LoadProgressPayload>)
        ensures
            payload_views(r@) == reports_in(
                blocks(old(self)@.waiting + text@),
                old(self)@.model_id,
            ),
            final(self)@ == (ListenerView {
                model_id: old(self)@.model_id,
                waiting: remainder(old(self)@.waiting + text@),
            }),
    {
        self.buf.append(text);
        let (found, rest) = split_blocks(self.buf.as_str());
        self.buf = rest;
        let ghost all = texts(found@);
        let mut r: Vec<LoadProgressPayload> = Vec::new();
        assert(payload_views(r@) =~= Seq::empty());
        let mut i: usize = 0;
        while i < found.len()
            invariant
                i <= found.len(),
                all == texts(found@),
                payload_views(r@) == reports_in(all.take(i as int), self.model_id@),
            decreases found.len() - i,
        {
            let ghost before = r@;
            proof {
                assert(all.take(i + 1).drop_last() =~= all.take(i as int));
                assert(all.take(i + 1).last() == found@[i as int]@);
            }
            if let Some(payload) = parse_load_progress_event(
                found[i].as_str(),
                self.model_id.as_str(),
            ) {
                r.push(payload);
                assert(payload_views(r@) =~= payload_views(before).push(payload@));
            }
            i += 1;
        }
        assert(all.take(i as int) =~= all);
        r
    }

    /// Takes in a chunk of the body of the feed.
    pub fn push(&mut self, bytes: &[u8]) -> (r: Vec<LoadProgressPayload>)
        ensures
            payload_views(r@) == reports_in(
                blocks(old(self)@.waiting + lossy_text(bytes@)),
                old(self)@.model_id,
            ),
            final(self)@ == (ListenerView {
                model_id: old(self)@.model_id,
                waiting: remainder(old(self)@.waiting + lossy_text(bytes@)),
            }),
            valid_utf8(bytes@) ==> payload_views(r@) == reports_in(
                blocks(old(self)@.waiting + decode_utf8(bytes@)),
                old(self)@.model_id,
            ),
    {
        let text = from_utf8_lossy(bytes);
        self.push_text(text.as_str())
    }
}

proof fn lemma_reports_concat(a: Seq<Seq<char>>, b: Seq<Seq<char>>, model_id: Seq<char>)
    ensures
        reports_in(a + b, model_id) == reports_in(a, model_id) + reports_in(b, model_id),
    decreases b.len(),
{
    if b.len() == 0 {
        assert(a + b =~= a);
        assert(reports_in(a, model_id) + reports_in(b, model_id) =~= reports_in(a, model_id));
    } else {
        assert((a + b).drop_last() =~= a + b.drop_last());
        lemma_reports_concat(a, b.drop_last(), model_id);
        assert(reports_in(a + b, model_id) =~= reports_in(a, model_id) + reports_in(b, model_id));
    }
}

/// Two pieces of the feed tell of the progress that one piece of their joined
/// text tells of, and leave the same text waiting.
pub proof fn law_feed_pieces_as_one(
    waiting: Seq<char>,
    a: Seq<char>,
    b: Seq<char>,
    model_id: Seq<char>,
)
    ensures
        reports_in(blocks(waiting + (a + b)), model_id) == reports_in(blocks(waiting + a), model_id)
            + reports_in(blocks(remainder(waiting + a) + b), model_id),
        remainder(waiting + (a + b)) == remainder(remainder(waiting + a) + b),
{
    assert(waiting + (a + b) =~= (waiting + a) + b);
    lemma_blocks_concat(waiting + a, b);
    lemma_reports_concat(blocks(waiting + a), blocks(remainder(waiting + a) + b), model_id);
}

proof fn lemma_first_report_model(lines: Seq<Seq<char>>, model_id: Seq<char>)
    ensures
        first_report(line_verdicts(lines, model_id)) matches Some(progress) ==> progress.model
            == model_id,
    decreases lines.len(),
{
    let verdicts = line_verdicts(lines, model_id);
    if lines.len() > 0 {
        assert(verdicts[0] == line_verdict(lines[0], model_id));
        assert(verdicts.skip(1) =~= line_verdicts(lines.skip(1), model_id));
        lemma_first_report_model(lines.skip(1), model_id);
    }
}

/// A report is always about the model that was asked for.
pub proof fn law_report_is_about_the_model(block: Seq<char>, model_id: Seq<char>)
    ensures
        progress_of(block, model_id) matches Some(progress) ==> progress.model == model_id,
{
    lemma_first_report_model(lines(block), model_id);
}

/// A block of one data line tells of progress exactly where its data is JSON for
/// a status change of the model with a progress that is not null.
pub proof fn law_one_data_line(data: Seq<char>, model_id: Seq<char>)
    requires
        forall|i: int| 0 <= i < data.len() ==> data[i] != '\n',
        data.len() > 0 ==> data.last() != '\r',
    ensures
        progress_of("data: "@ + data + "\n\n"@, model_id) == (match parsed(data) {
            Some(json) => match data_verdict(json, model_id) {
                VerdictView::Report(progress) => Some(progress),
                _ => None,
            },
            None => None,
        }),
{
    reveal_strlit("data: ");
    reveal_strlit("data:");
    reveal_strlit("\n\n");
    let line = "data: "@ + data;
    let block = line + "\n\n"@;
    assert forall|i: int| 0 <= i < line.len() implies block[i] != '\n' by {
        if i >= 6 {
            assert(block[i] == data[i - 6]);
        }
    }
    lemma_line_end_is(block, line.len() as int);
    assert(block.take(line.len() as int) =~= line);
    assert(without_return(line) == line);
    let rest = block.skip(line.len() as int + 1);
    assert(rest =~= seq!['\n']);
    lemma_line_end_is(rest, 0);
    assert(rest.take(0) =~= Seq::<char>::empty());
    assert(rest.skip(1) =~= Seq::<char>::empty());
    assert(lines(rest.skip(1)) =~= Seq::<Seq<char>>::empty());
    assert(lines(rest) =~= seq![without_return(rest.take(0))] + lines(rest.skip(1)));
    assert(lines(block) =~= seq![line, Seq::<char>::empty()]);
    let verdicts = line_verdicts(lines(block), model_id);
    assert(line.skip(6) =~= data);
    assert(data_on(line) == Some(data));
    assert(data_on(Seq::<char>::empty()) is None);
    assert(verdicts[0] == line_verdict(line, model_id));
    assert(verdicts.skip(1)[0] == VerdictView::Skip);
    assert(verdicts.skip(1).skip(1) =~= Seq::<VerdictView>::empty());
    assert(first_report(verdicts.skip(1).skip(1)) is None);
    assert(first_report(verdicts.skip(1)) is None);
}

/// A line without data makes no difference, wherever it stands in a block:
/// comments, blank lines and other fields are passed over.
pub proof fn law_lines_without_data_are_passed_over(
    before: Seq<Seq<char>>,
    line: Seq<char>,
    after: Seq<Seq<char>>,
    model_id: Seq<char>,
)
    requires
        data_on(line) is None,
    ensures
        first_report(line_verdicts(before.push(line) + after, model_id)) == first_report(
            line_verdicts(before + after, model_id),
        ),
    decreases before.len(),
{
    let more = line_verdicts(before.push(line) + after, model_id);
    let fewer = line_verdicts(before + after, model_id);
    if before.len() == 0 {
        assert(more[0] == VerdictView::Skip);
        assert(more.skip(1) =~= fewer);
    } else {
        let shorter = before.skip(1);
        law_lines_without_data_are_passed_over(shorter, line, after, model_id);
        assert(more.skip(1) =~= line_verdicts(shorter.push(line) + after, model_id));
        assert(fewer.skip(1) =~= line_verdicts(shorter + after, model_id));
        assert(more[0] == fewer[0]);
    }
}

} // verus!
