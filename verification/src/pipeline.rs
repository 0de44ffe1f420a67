//! The delivery run: one mail per data row, each sent on its own, and the
//! verdict over all of them.
//!
//! The run does no sending itself. It says what is to be done next
//! ([`Pipeline::action`]), and is told what came of it ([`Pipeline::step`]).
//! First the connection is tested, once; unless the relay answers yes,
//! nothing is sent. Then the rows follow in their order. A row that fails
//! is recorded and the run goes on with the next.

use crate::chars::{decimal, decimal_text, quoted, quoted_text};
use crate::text::{filled, paired, texts, MailMessage, MailTemplate, MessageView};
use vstd::prelude::*;

verus! {

/// What became of one row's mail.
#[derive(Debug, Clone)]
pub enum Outcome {
    Delivered,
    /// Not delivered, for the reason the transport gave.
    Failed(String),
}

/// The value of an `Outcome`.
pub ghost enum OutcomeView {
    Delivered,
    Failed(Seq<char>),
}

impl View for Outcome {
    type V = OutcomeView;

    open spec fn view(&self) -> OutcomeView {
        match self {
            Outcome::Delivered => OutcomeView::Delivered,
            Outcome::Failed(reason) => OutcomeView::Failed(reason@),
        }
    }
}

/// The verdict over a whole run.
#[derive(Debug, Clone, Copy, PartialEq, Eq, Structural)]
pub enum RunResult {
    /// Every row's mail was delivered.
    AllHealthy,
    /// At least one row's mail was not.
    PartialFailure,
}

/// Why a run ended before any row was sent.
#[derive(Debug, Clone, Copy, PartialEq, Eq, Structural)]
pub enum RunError {
    /// The table has no row at all, not even a header.
    NoRows,
    /// The table has a header and nothing below it.
    NoDataRows,
    /// The connection test failed, or the relay answered no.
    ConnectionFailed,
}

/// How far the connection test has come.
#[derive(Debug, Clone, Copy, PartialEq, Eq, Structural)]
pub enum Preflight {
    /// Not tested yet.
    Pending,
    /// Tested, and the relay answered yes.
    Passed,
    /// Tested, and the relay did not answer yes.
    Failed,
}

/// What the run asks for next.
#[derive(Debug)]
pub enum Action {
    /// Test the connection to the relay.
    TestConnection,
    /// Send this mail.
    Send(MailMessage),
    /// Nothing more: the run is over, with this result.
    Finish(Result<RunResult, RunError>),
}

/// The value of an `Action`.
pub ghost enum ActionView {
    TestConnection,
    Send(MessageView),
    Finish(Result<RunResult, RunError>),
}

impl View for Action {
    type V = ActionView;

    open spec fn view(&self) -> ActionView {
        match self {
            Action::TestConnection => ActionView::TestConnection,
            Action::Send(message) => ActionView::Send(message@),
            Action::Finish(result) => ActionView::Finish(*result),
        }
    }
}

/// What came of an action.
#[derive(Debug)]
pub enum Event {
    /// The connection was tested: the relay's answer, or why there is none.
    ConnectionTested(Result<bool, String>),
    /// The mail was handed to the transport: taken, or why not.
    Sent(Result<(), String>),
}

/// The state of a run.
pub ghost struct PipelineView {
    pub template: MessageView,
    pub header: Seq<Seq<char>>,
    pub rows: Seq<Seq<Seq<char>>>,
    pub preflight: Preflight,
    pub outcomes: Seq<OutcomeView>,
}

/// The outcome that the transport's reply stands for.
pub open spec fn outcome_of(reply: Result<(), String>) -> OutcomeView {
    match reply {
        Ok(_) => OutcomeView::Delivered,
        Err(reason) => OutcomeView::Failed(reason@),
    }
}

/// The verdict over `outcomes`: healthy if and only if every one of them
/// is a delivery.
pub open spec fn verdict(outcomes: Seq<OutcomeView>) -> RunResult {
    if forall|i: int| 0 <= i < outcomes.len() ==> outcomes[i] is Delivered {
        RunResult::AllHealthy
    } else {
        RunResult::PartialFailure
    }
}

/// The state in which a run begins.
pub open spec fn begun(
    template: MessageView,
    header: Seq<Seq<char>>,
    rows: Seq<Seq<Seq<char>>>,
) -> PipelineView {
    PipelineView { template, header, rows, preflight: Preflight::Pending, outcomes: Seq::empty() }
}

/// What the run asks for in `state`.
pub open spec fn wanted(state: PipelineView) -> ActionView {
    match state.preflight {
        Preflight::Pending => ActionView::TestConnection,
        Preflight::Failed => ActionView::Finish(Err(RunError::ConnectionFailed)),
        Preflight::Passed => if state.outcomes.len() < state.rows.len() {
            ActionView::Send(
                filled(
                    state.template,
                    paired(state.header, state.rows[state.outcomes.len() as int]),
                ),
            )
        } else {
            ActionView::Finish(Ok(verdict(state.outcomes)))
        },
    }
}

/// The state after `event`. An event that answers nothing the run asked for
/// changes nothing.
pub open spec fn stepped(state: PipelineView, event: Event) -> PipelineView {
    match (state.preflight, event) {
        (Preflight::Pending, Event::ConnectionTested(report)) => PipelineView {
            preflight: if report == Ok::<bool, String>(true) {
                Preflight::Passed
            } else {
                Preflight::Failed
            },
            ..state
        },
        (Preflight::Passed, Event::Sent(reply)) if state.outcomes.len() < state.rows.len() => PipelineView {
            outcomes: state.outcomes.push(outcome_of(reply)),
            ..state
        },
        _ => state,
    }
}

/// The line that reports the `done`-th delivery of `all`.
pub open spec fn progress_text(done: nat, all: nat) -> Seq<char> {
    "mail ["@ + decimal_text(done) + "/"@ + decimal_text(all) + "]"@
}

/// The line to show for `event` in `state`, if there is one: the progress
/// after a delivery, the reason after a failure.
pub open spec fn noticed(state: PipelineView, event: Event) -> Option<Seq<char>> {
    match (state.preflight, event) {
        (Preflight::Pending, Event::ConnectionTested(Err(reason))) => Some(reason@),
        (Preflight::Passed, Event::Sent(reply)) if state.outcomes.len() < state.rows.len() => match reply {
            Ok(_) => Some(progress_text(state.outcomes.len() + 1, state.rows.len())),
            Err(reason) => Some(reason@),
        },
        _ => None,
    }
}

/// The state after all of `events`, in their order.
pub open spec fn fed(state: PipelineView, events: Seq<Event>) -> PipelineView
    decreases events.len(),
{
    if events.len() == 0 {
        state
    } else {
        stepped(fed(state, events.drop_last()), events.last())
    }
}

/// The values of the rows of a table.
pub open spec fn table_view(rows: Seq<Vec<String>>) -> Seq<Seq<Seq<char>>> {
    rows.map_values(|row: Vec<String>| texts(row@))
}

/// The values of the outcomes.
pub open spec fn outcomes_view(outcomes: Seq<Outcome>) -> Seq<OutcomeView> {
    outcomes.map_values(|o: Outcome| o@)
}

/// A run over the data rows of one table.
pub struct Pipeline {
    template: MailTemplate,
    header: Vec<String>,
    rows: Vec<Vec<String>>,
    preflight: Preflight,
    outcomes: Vec<Outcome>,
}

impl View for Pipeline {
    type V = PipelineView;

    closed spec fn view(&self) -> PipelineView {
        PipelineView {
            template: self.template@,
            header: texts(self.header@),
            rows: table_view(self.rows@),
            preflight: self.preflight,
            outcomes: outcomes_view(self.outcomes@),
        }
    }
}

/// The verdict over the outcomes of a run.
pub fn aggregate(outcomes: &Vec<Outcome>) -> (result: RunResult)
    ensures
        result == verdict(outcomes_view(outcomes@)),
{
    let mut i: usize = 0;
    while i < outcomes.len()
        invariant
            i <= outcomes.len(),
            forall|k: int| 0 <= k < i ==> outcomes@[k] is Delivered,
        decreases outcomes.len() - i,
    {
        match &outcomes[i] {
            Outcome::Delivered => {},
            Outcome::Failed(_) => {
                assert(!(outcomes_view(outcomes@)[i as int] is Delivered));
                return RunResult::PartialFailure;
            },
        }
        i += 1;
    }
    assert forall|k: int| 0 <= k < outcomes_view(outcomes@).len() implies outcomes_view(
        outcomes@,
    )[k] is Delivered by {
        assert(outcomes@[k] is Delivered);
    }
    RunResult::AllHealthy
}

/// Parts a table into its header and its data rows. A table without a row,
/// or with nothing below the header, is refused.
pub fn split_table(table: Vec<Vec<String>>) -> (r: Result<(Vec<String>, Vec<Vec<String>>), RunError>)
    ensures
        table@.len() == 0 <==> r == Err::<(Vec<String>, Vec<Vec<String>>), RunError>(
            RunError::NoRows,
        ),
        table@.len() == 1 <==> r == Err::<(Vec<String>, Vec<Vec<String>>), RunError>(
            RunError::NoDataRows,
        ),
        table@.len() >= 2 <==> r is Ok,
        r matches Ok((header, rows)) ==> texts(header@) == texts(table@[0]@) && table_view(rows@)
            == table_view(table@).skip(1),
{
    let mut table = table;
    if table.len() == 0 {
        return Err(RunError::NoRows);
    }
    if table.len() == 1 {
        return Err(RunError::NoDataRows);
    }
    let ghost whole = table@;
    let header = table.remove(0);
    proof {
        assert(table_view(table@) =~= table_view(whole).skip(1));
    }
    Ok((header, table))
}

impl Pipeline {
    /// A run of `template` over `rows`, whose columns `header` names. It
    /// begins with the connection untested and no row sent.
    pub fn new(template: MailTemplate, header: Vec<String>, rows: Vec<Vec<String>>) -> (run:
        Pipeline)
        ensures
            run@ == begun(template@, texts(header@), table_view(rows@)),
    {
        let run = Pipeline { template, header, rows, preflight: Preflight::Pending, outcomes: Vec::new() };
        proof {
            assert(outcomes_view(run.outcomes@) =~= Seq::<OutcomeView>::empty());
        }
        run
    }

    /// A run of `template` over `table`, whose first row is the header and
    /// whose other rows are the data. A table without a data row is refused,
    /// and no run begins.
    pub fn start(template: MailTemplate, table: Vec<Vec<String>>) -> (r: Result<Pipeline, RunError>)
        ensures
            table@.len() == 0 <==> r == Err::<Pipeline, RunError>(RunError::NoRows),
            table@.len() == 1 <==> r == Err::<Pipeline, RunError>(RunError::NoDataRows),
            table@.len() >= 2 <==> r is Ok,
            r matches Ok(run) ==> run@ == begun(
                template@,
                table_view(table@)[0],
                table_view(table@).skip(1),
            ),
    {
        match split_table(table) {
            Ok((header, rows)) => Ok(Pipeline::new(template, header, rows)),
            Err(e) => Err(e),
        }
    }

    /// What is to be done next.
    pub fn action(&self) -> (action: Action)
        ensures
            action@ == wanted(self@),
    {
        match self.preflight {
            Preflight::Pending => Action::TestConnection,
            Preflight::Failed => Action::Finish(Err(RunError::ConnectionFailed)),
            Preflight::Passed => {
                let done = self.outcomes.len();
                if done < self.rows.len() {
                    Action::Send(self.template.materialize(&self.header, &self.rows[done]))
                } else {
                    Action::Finish(Ok(aggregate(&self.outcomes)))
                }
            },
        }
    }

    /// Takes in what came of the last action, and returns the line to show
    /// for it, if there is one.
    pub fn step(&mut self, event: Event) -> (notice: Option<String>)
        ensures
            final(self)@ == stepped(old(self)@, event),
            match notice {
                Some(line) => noticed(old(self)@, event) == Some(line@),
                None => noticed(old(self)@, event) is None,
            },
    {
        match event {
            Event::ConnectionTested(report) => match self.preflight {
                Preflight::Pending => match report {
                    Ok(true) => {
                        self.preflight = Preflight::Passed;
                        None
                    },
                    Ok(false) => {
                        self.preflight = Preflight::Failed;
                        None
                    },
                    Err(reason) => {
                        self.preflight = Preflight::Failed;
                        Some(reason)
                    },
                },
                _ => None,
            },
            Event::Sent(reply) => match self.preflight {
                Preflight::Passed => {
                    if self.outcomes.len() < self.rows.len() {
                        let ghost before = outcomes_view(self.outcomes@);
                        match reply {
                            Ok(_) => {
                                self.outcomes.push(Outcome::Delivered);
                                proof {
                                    assert(outcomes_view(self.outcomes@) =~= before.push(
                                        OutcomeView::Delivered,
                                    ));
                                }
                                Some(progress(self.outcomes.len(), self.rows.len()))
                            },
                            Err(reason) => {
                                self.outcomes.push(Outcome::Failed(reason.clone()));
                                proof {
                                    assert(outcomes_view(self.outcomes@) =~= before.push(
                                        OutcomeView::Failed(reason@),
                                    ));
                                }
                                Some(reason)
                            },
                        }
                    } else {
                        None
                    }
                },
                _ => None,
            },
        }
    }

    /// The outcomes of the rows sent so far, in the rows' order.
    pub fn outcomes(&self) -> (out: &Vec<Outcome>)
        ensures
            outcomes_view(out@) == self@.outcomes,
    {
        &self.outcomes
    }
}

/// The line that reports the `done`-th delivery of `all`.
pub fn progress(done: usize, all: usize) -> (line: String)
    ensures
        line@ == progress_text(done as nat, all as nat),
{
    let mut line = String::from_str("mail [");
    line.append(decimal(done).as_str());
    line.append("/");
    line.append(decimal(all).as_str());
    line.append("]");
    line
}

/// Whether a file with this extension is taken for a workbook: `xlsx`,
/// `xlsm`, `xlsb` and `xls` are, in exactly this spelling.
pub fn accepts_extension(extension: Option<&str>) -> (yes: bool)
    ensures
        yes <==> (extension matches Some(e) && (e@ == "xlsx"@ || e@ == "xlsm"@ || e@ == "xlsb"@
            || e@ == "xls"@)),
{
    match extension {
        Some(e) => same_text(e, "xlsx") || same_text(e, "xlsm") || same_text(e, "xlsb")
            || same_text(e, "xls"),
        None => false,
    }
}

fn same_text(a: &str, b: &str) -> (same: bool)
    ensures
        same == (a@ == b@),
{
    let left = a.to_owned();
    let right = b.to_owned();
    left == right
}

/// The sentence that reports how the run over the sheet `sheet` of the
/// workbook at `workbook` failed, or `None` where it did not.
pub open spec fn failure_text(
    result: Result<RunResult, RunError>,
    sheet: Seq<char>,
    workbook: Seq<char>,
) -> Option<Seq<char>> {
    match result {
        Ok(RunResult::AllHealthy) => None,
        Ok(RunResult::PartialFailure) => Some("There is at least one error, see above logs. "@),
        Err(RunError::NoRows) => Some(
            "\""@ + sheet + "\" in "@ + quoted_text(workbook)
                + " has 0 rows, which means it doesnt't even have a header!"@,
        ),
        Err(RunError::NoDataRows) => Some(
            "\""@ + sheet + "\" in "@ + quoted_text(workbook)
                + " has a header and no rows below it, which means there is no mail to send!"@,
        ),
        Err(RunError::ConnectionFailed) => Some(
            "The mail service did not pass the connection test, no mail was sent. "@,
        ),
    }
}

/// What the end of the run means for the program: success where every mail
/// was delivered, else the sentence that reports the failure.
pub fn conclude(result: Result<RunResult, RunError>, sheet: &str, workbook: &str) -> (r: Result<
    (),
    String,
>)
    ensures
        match r {
            Ok(_) => failure_text(result, sheet@, workbook@) is None,
            Err(text) => failure_text(result, sheet@, workbook@) == Some(text@),
        },
{
    match result {
        Ok(RunResult::AllHealthy) => Ok(()),
        Ok(RunResult::PartialFailure) => Err(
            String::from_str("There is at least one error, see above logs. "),
        ),
        Err(RunError::NoRows) => {
            let mut text = String::from_str("\"");
            text.append(sheet);
            text.append("\" in ");
            text.append(quoted(workbook).as_str());
            text.append(" has 0 rows, which means it doesnt't even have a header!");
            Err(text)
        },
        Err(RunError::NoDataRows) => {
            let mut text = String::from_str("\"");
            text.append(sheet);
            text.append("\" in ");
            text.append(quoted(workbook).as_str());
            text.append(
                " has a header and no rows below it, which means there is no mail to send!",
            );
            Err(text)
        },
        Err(RunError::ConnectionFailed) => Err(
            String::from_str(
                "The mail service did not pass the connection test, no mail was sent. ",
            ),
        ),
    }
}

/// The program's last words.
pub open spec fn farewell_text(outcome: Result<(), String>) -> Seq<char> {
    match outcome {
        Ok(_) => "Mails all sent gracefully (*^_^*)"@,
        Err(e) => "===\n"@ + e@ + " ~~(ToT)~~\n==="@,
    }
}

/// The program's last words: a greeting after a healthy run, else the
/// failure between two rules.
pub fn farewell(outcome: &Result<(), String>) -> (line: String)
    ensures
        line@ == farewell_text(*outcome),
{
    match outcome {
        Ok(_) => String::from_str("Mails all sent gracefully (*^_^*)"),
        Err(e) => {
            let mut line = String::from_str("===\n");
            line.append(e.as_str());
            line.append(" ~~(ToT)~~\n===");
            line
        },
    }
}

/// The events of a run in which the relay passes the connection test and
/// the transport then answers row after row with `replies`.
pub open spec fn run_events(replies: Seq<Result<(), String>>) -> Seq<Event> {
    seq![Event::ConnectionTested(Ok(true))] + replies.map_values(
        |reply: Result<(), String>| Event::Sent(reply),
    )
}

/// After a passed connection test, the run records the reply to each row as
/// that row's outcome, in the rows' order, whatever the replies before it
/// were.
pub proof fn lemma_run_records_replies(
    template: MessageView,
    header: Seq<Seq<char>>,
    rows: Seq<Seq<Seq<char>>>,
    replies: Seq<Result<(), String>>,
)
    requires
        replies.len() <= rows.len(),
    ensures
        fed(begun(template, header, rows), run_events(replies)) == (PipelineView {
            preflight: Preflight::Passed,
            outcomes: replies.map_values(|reply: Result<(), String>| outcome_of(reply)),
            ..begun(template, header, rows)
        }),
    decreases replies.len(),
{
    let start = begun(template, header, rows);
    let events = run_events(replies);
    let outcomes = replies.map_values(|reply: Result<(), String>| outcome_of(reply));
    if replies.len() == 0 {
        assert(events.drop_last() =~= Seq::<Event>::empty());
        assert(outcomes =~= Seq::<OutcomeView>::empty());
        assert(fed(start, events.drop_last()) == start);
    } else {
        let earlier = replies.drop_last();
        lemma_run_records_replies(template, header, rows, earlier);
        assert(events.drop_last() =~= run_events(earlier));
        assert(events.last() == Event::Sent(replies.last()));
        assert(outcomes =~= earlier.map_values(|reply: Result<(), String>| outcome_of(reply)).push(
            outcome_of(replies.last()),
        ));
    }
}

/// A row is sent whatever became of the rows before it: once the replies
/// to the first `replies.len()` rows are in, the run asks for the mail of
/// the next row.
pub proof fn lemma_failure_blocks_no_row(
    template: MessageView,
    header: Seq<Seq<char>>,
    rows: Seq<Seq<Seq<char>>>,
    replies: Seq<Result<(), String>>,
)
    requires
        replies.len() < rows.len(),
    ensures
        wanted(fed(begun(template, header, rows), run_events(replies))) == ActionView::Send(
            filled(template, paired(header, rows[replies.len() as int])),
        ),
{
    lemma_run_records_replies(template, header, rows, replies);
}

/// When every row has its reply, the run is over, and its result is healthy
/// if and only if every reply was a success.
pub proof fn lemma_run_verdict(
    template: MessageView,
    header: Seq<Seq<char>>,
    rows: Seq<Seq<Seq<char>>>,
    replies: Seq<Result<(), String>>,
)
    requires
        replies.len() == rows.len(),
    ensures
        wanted(fed(begun(template, header, rows), run_events(replies))) matches ActionView::Finish(
            Ok(result),
        ) && (result == RunResult::AllHealthy <==> forall|i: int|
            0 <= i < replies.len() ==> replies[i] is Ok),
{
    lemma_run_records_replies(template, header, rows, replies);
    let outcomes = replies.map_values(|reply: Result<(), String>| outcome_of(reply));
    if forall|i: int| 0 <= i < replies.len() ==> replies[i] is Ok {
        assert forall|i: int| 0 <= i < outcomes.len() implies outcomes[i] is Delivered by {
            assert(replies[i] is Ok);
        }
    } else {
        let i = choose|i: int| 0 <= i < replies.len() && !(replies[i] is Ok);
        assert(!(outcomes[i] is Delivered));
    }
}

/// Unless the relay answers yes to the connection test, the run is over at
/// once: whatever events follow, it asks for no mail to be sent and records
/// no outcome.
pub proof fn lemma_failed_test_sends_nothing(
    template: MessageView,
    header: Seq<Seq<char>>,
    rows: Seq<Seq<Seq<char>>>,
    report: Result<bool, String>,
    later: Seq<Event>,
)
    requires
        report != Ok::<bool, String>(true),
    ensures
        fed(begun(template, header, rows), seq![Event::ConnectionTested(report)] + later) == (
        PipelineView { preflight: Preflight::Failed, ..begun(template, header, rows) }),
        wanted(fed(begun(template, header, rows), seq![Event::ConnectionTested(report)] + later))
            == ActionView::Finish(Err(RunError::ConnectionFailed)),
    decreases later.len(),
{
    let start = begun(template, header, rows);
    let events = seq![Event::ConnectionTested(report)] + later;
    if later.len() == 0 {
        assert(events.drop_last() =~= Seq::<Event>::empty());
        assert(fed(start, events.drop_last()) == start);
    } else {
        lemma_failed_test_sends_nothing(template, header, rows, report, later.drop_last());
        assert(events.drop_last() =~= seq![Event::ConnectionTested(report)] + later.drop_last());
    }
}

/// Before the connection has been tested nothing is sent: replies that
/// arrive then are not taken, and the run still asks for the test.
pub proof fn lemma_nothing_sent_untested(
    template: MessageView,
    header: Seq<Seq<char>>,
    rows: Seq<Seq<Seq<char>>>,
    replies: Seq<Result<(), String>>,
)
    ensures
        fed(
            begun(template, header, rows),
            replies.map_values(|reply: Result<(), String>| Event::Sent(reply)),
        ) == begun(template, header, rows),
        wanted(begun(template, header, rows)) == ActionView::TestConnection,
    decreases replies.len(),
{
    let events = replies.map_values(|reply: Result<(), String>| Event::Sent(reply));
    if replies.len() > 0 {
        lemma_nothing_sent_untested(template, header, rows, replies.drop_last());
        assert(events.drop_last() =~= replies.drop_last().map_values(
            |reply: Result<(), String>| Event::Sent(reply),
        ));
    }
}

} // verus!
