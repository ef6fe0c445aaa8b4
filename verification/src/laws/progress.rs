//! What the event feed of a router tells of a load.

use vstd::prelude::*;

use crate::json::{member, parsed, string_of, Num, Tree};
use crate::llamacpp::progress::{
    data_on, data_verdict, line_verdict, line_verdicts, progress_of, reports_in, LineVerdict,
    Progress, VerdictView,
};
use crate::request::nested;
use crate::text::lines;

verus! {

/// The data of an event is a status change of the model.
pub open spec fn is_change_of(data: Tree, model_id: Seq<char>) -> bool {
    &&& string_of(member(data, "model"@)) == Some(model_id)
    &&& string_of(member(data, "event"@)) == Some("status_change"@)
}

/// The report is that of the progress object: its model is the one asked for, its
/// stage the string under `current`, none where that is no string, and its value
/// the number under `value`, zero where that is no number.
pub open spec fn is_report(report: Progress, progress: Tree, model_id: Seq<char>) -> bool {
    &&& report.model == model_id
    &&& report.stage == string_of(member(progress, "current"@))
    &&& report.value == (match member(progress, "value"@) {
        Some(Tree::Number(n)) => n,
        _ => Num::Int(0),
    })
}

/// The data on a line, where it is a `data` line.
pub open spec fn data_of_line(line: Seq<char>) -> Option<Seq<char>> {
    if !"data:"@.is_prefix_of(line) {
        None
    } else if line.len() > 5 && line[5] == ' ' {
        Some(line.skip(6))
    } else {
        Some(line.skip(5))
    }
}

proof fn lemma_data_on(line: Seq<char>)
    ensures
        data_on(line) == data_of_line(line),
{
    reveal_strlit("data: ");
    reveal_strlit("data:");
    if "data: "@.is_prefix_of(line) {
        assert("data:"@ =~= line.subrange(0, 5)) by {
            assert(forall|i: int| 0 <= i < 5 ==> "data: "@[i] == line.subrange(0, 6)[i]);
        }
        assert("data: "@[5] == line.subrange(0, 6)[5]);
    }
    if "data:"@.is_prefix_of(line) && line.len() > 5 && line[5] == ' ' {
        assert(forall|i: int| 0 <= i < 5 ==> "data:"@[i] == line.subrange(0, 5)[i]);
        assert("data: "@ =~= line.subrange(0, 6));
    }
}

/// What the first line of a block comes to. A line without data is passed over, and
/// so is a change of another model, another event, and a progress that is null.
/// Data that is not JSON, and a change without a progress, end the block without a
/// report. Any other progress is reported.
pub proof fn law_first_line_of_block(
    block: Seq<char>,
    rest: Seq<char>,
    line: Seq<char>,
    model_id: Seq<char>,
)
    requires
        lines(block) == seq![line] + lines(rest),
    ensures
        match data_of_line(line) {
            None => progress_of(block, model_id) == progress_of(rest, model_id),
            Some(text) => match parsed(text) {
                None => progress_of(block, model_id) is None,
                Some(data) => if !is_change_of(data, model_id) {
                    progress_of(block, model_id) == progress_of(rest, model_id)
                } else {
                    match nested(member(data, "data"@), "progress"@) {
                        None => progress_of(block, model_id) is None,
                        Some(Tree::Null) => progress_of(block, model_id) == progress_of(
                            rest,
                            model_id,
                        ),
                        Some(progress) => progress_of(block, model_id) matches Some(report)
                            && is_report(report, progress, model_id),
                    }
                },
            },
        },
{
    lemma_data_on(line);
    let verdicts = line_verdicts(lines(block), model_id);
    assert(verdicts[0] == line_verdict(line, model_id));
    assert(verdicts.skip(1) =~= line_verdicts(lines(rest), model_id));
}

/// A block without lines reports nothing.
pub proof fn law_empty_block(block: Seq<char>, model_id: Seq<char>)
    requires
        lines(block).len() == 0,
    ensures
        progress_of(block, model_id) is None,
{
    assert(line_verdicts(lines(block), model_id).len() == 0);
}

/// Two blocks of one line whose progress objects agree on the stage and the value
/// give the same report, whatever else the objects hold.
pub proof fn law_report_rests_on_stage_and_value(
    a: Seq<char>,
    b: Seq<char>,
    line_a: Seq<char>,
    line_b: Seq<char>,
    data_a: Tree,
    data_b: Tree,
    model_id: Seq<char>,
)
    requires
        lines(a) == seq![line_a],
        lines(b) == seq![line_b],
        data_of_line(line_a) matches Some(text) && parsed(text) == Some(data_a),
        data_of_line(line_b) matches Some(text) && parsed(text) == Some(data_b),
        is_change_of(data_a, model_id),
        is_change_of(data_b, model_id),
        ({
            let x = nested(member(data_a, "data"@), "progress"@);
            let y = nested(member(data_b, "data"@), "progress"@);
            &&& x is Some && x->0 != Tree::Null
            &&& y is Some && y->0 != Tree::Null
            &&& member(x->0, "current"@) == member(y->0, "current"@)
            &&& member(x->0, "value"@) == member(y->0, "value"@)
        }),
    ensures
        progress_of(a, model_id) is Some,
        progress_of(a, model_id) == progress_of(b, model_id),
{
    let none = Seq::<char>::empty();
    assert(lines(none) =~= Seq::<Seq<char>>::empty());
    assert(lines(a) =~= seq![line_a] + lines(none));
    assert(lines(b) =~= seq![line_b] + lines(none));
    law_first_line_of_block(a, none, line_a, model_id);
    law_first_line_of_block(b, none, line_b, model_id);
}

/// The reports of blocks are those of each block that gives one, in order.
pub proof fn law_reports_in_order(
    a: Seq<Seq<char>>,
    b: Seq<Seq<char>>,
    block: Seq<char>,
    model_id: Seq<char>,
)
    ensures
        reports_in(a + b, model_id) == reports_in(a, model_id) + reports_in(b, model_id),
        reports_in(Seq::empty(), model_id) == Seq::<Progress>::empty(),
        reports_in(seq![block], model_id) == (match progress_of(block, model_id) {
            Some(report) => seq![report],
            None => Seq::<Progress>::empty(),
        }),
    decreases b.len(),
{
    let one = seq![block];
    assert(one.drop_last() =~= Seq::<Seq<char>>::empty());
    assert(reports_in(one.drop_last(), model_id) =~= Seq::<Progress>::empty());
    assert(reports_in(one, model_id) =~= (match progress_of(block, model_id) {
        Some(report) => seq![report],
        None => Seq::<Progress>::empty(),
    }));
    if b.len() == 0 {
        assert(a + b =~= a);
        assert(reports_in(a, model_id) + reports_in(b, model_id) =~= reports_in(a, model_id));
    } else {
        assert((a + b).drop_last() =~= a + b.drop_last());
        law_reports_in_order(a, b.drop_last(), block, model_id);
        assert(reports_in(a + b, model_id) =~= reports_in(a, model_id) + reports_in(b, model_id));
    }
}

/// What the data of an event comes to: it is skipped where it is no change of the
/// model or its progress is null, it stops the block where it has no progress, and
/// else it is reported.
pub proof fn law_data_of_event(data: Tree, model_id: Seq<char>)
    ensures
        match nested(member(data, "data"@), "progress"@) {
            _ if !is_change_of(data, model_id) => data_verdict(data, model_id) == VerdictView::Skip,
            None => data_verdict(data, model_id) == VerdictView::Stop,
            Some(Tree::Null) => data_verdict(data, model_id) == VerdictView::Skip,
            Some(progress) => data_verdict(data, model_id) matches VerdictView::Report(report)
                && is_report(report, progress, model_id),
        },
{
}

/// A verdict stands for what it is.
pub proof fn law_verdict(verdict: LineVerdict)
    ensures
        match verdict {
            LineVerdict::Stop => verdict@ == VerdictView::Stop,
            LineVerdict::Skip => verdict@ == VerdictView::Skip,
            LineVerdict::Report(payload) => verdict@ == VerdictView::Report(payload@),
        },
{
}

} // verus!
