//! When the status line asks to be drawn again, and what its failures log.

use vstd::prelude::*;
use vstd::string::*;
use crate::json::{
    law_first_member_counts, members_view, text_member, Json, JsonView, Member,
};
use crate::slash::command::ModelState;
use crate::text::opt_text;

verus! {

/// Whether a run of the status command is under way.
#[derive(Clone, Copy, Debug, PartialEq, Eq, Structural)]
pub enum RunSlot {
    Free,
    /// A run is under way and may still answer.
    WithinDeadline,
    /// A run is under way that should have answered.
    PastDeadline,
}

/// What decides whether the status line is to be drawn again.
#[derive(Clone, Copy, Debug, PartialEq, Eq, Structural)]
pub struct TickInputs {
    pub row_is_drawn: bool,
    pub settled: bool,
    pub source_changed: bool,
    pub client_fields_changed: bool,
    pub turn_timer_running: bool,
    pub has_agent: bool,
    pub forced: bool,
    pub refresh_due: bool,
    pub run: RunSlot,
}

/// How often the status line wants to be asked again.
#[derive(Clone, Copy, Debug, PartialEq, Eq, Structural)]
pub enum TickDemand {
    /// Not at all.
    Idle,
    /// Now and then.
    Slow,
}

impl TickInputs {
    /// Whether nothing can be drawn now: there is no agent or no row, or a run
    /// will answer by itself.
    pub open spec fn suppressed(self) -> bool {
        !self.has_agent || !self.row_is_drawn || self.run == RunSlot::WithinDeadline
    }

    /// Whether there is a reason to draw again.
    pub open spec fn has_reason(self) -> bool {
        ||| !self.settled
        ||| self.source_changed
        ||| self.client_fields_changed
        ||| self.turn_timer_running
        ||| self.forced
        ||| self.refresh_due
        ||| self.run == RunSlot::PastDeadline
    }
}

/// How often the status line wants to be asked again: a reason to draw counts
/// only where something can be drawn.
pub fn status_line_tick_demand(inputs: TickInputs) -> (r: TickDemand)
    ensures
        r == if !inputs.suppressed() && inputs.has_reason() {
            TickDemand::Slow
        } else {
            TickDemand::Idle
        },
{
    if !inputs.has_agent || !inputs.row_is_drawn || inputs.run == RunSlot::WithinDeadline {
        return TickDemand::Idle;
    }
    if !inputs.settled || inputs.source_changed || inputs.client_fields_changed
        || inputs.turn_timer_running || inputs.forced || inputs.refresh_due || inputs.run
        == RunSlot::PastDeadline {
        TickDemand::Slow
    } else {
        TickDemand::Idle
    }
}

/// How many failures in a row replace output that was there with the error.
pub const REFRESH_FAILURES_TO_PAINT: u32 = 3;

/// How a run of the status command ended.
#[derive(Debug)]
pub enum FinishDisposition {
    /// Its output is shown.
    Applied,
    /// It failed; the output before is still shown.
    RefreshFailureKept { error: String, failures: u32 },
    /// It failed; the error is shown.
    RefreshFailurePainted { error: String, failures: u32 },
}

/// How loud a line of the log is.
#[derive(Clone, Copy, Debug, PartialEq, Eq, Structural)]
pub enum RefreshFailureLogLevel {
    Debug,
    Warn,
}

/// What the log is told of a failure.
#[derive(Debug)]
pub struct RefreshFailureLog {
    pub level: RefreshFailureLogLevel,
    pub message: &'static str,
    pub failures: u32,
    pub error: String,
}

/// The model of [`RefreshFailureLog`].
pub struct FailureLogView {
    pub level: RefreshFailureLogLevel,
    pub message: Seq<char>,
    pub failures: u32,
    pub error: Seq<char>,
}

impl RefreshFailureLog {
    pub open spec fn view(&self) -> FailureLogView {
        FailureLogView {
            level: self.level,
            message: self.message@,
            failures: self.failures,
            error: self.error@,
        }
    }
}

/// Whether a failure that is shown is news: the first, or the one that replaces
/// output that was there.
pub open spec fn is_news(failures: u32) -> bool {
    failures == 1 || failures == REFRESH_FAILURES_TO_PAINT
}

/// What the log is told of the end of a run. Only what changes what the user sees
/// is a warning.
pub open spec fn log_of(disposition: FinishDisposition) -> Option<FailureLogView> {
    match disposition {
        FinishDisposition::Applied => None,
        FinishDisposition::RefreshFailureKept { error, failures } => Some(
            FailureLogView {
                level: RefreshFailureLogLevel::Debug,
                message: "status_line: refresh run failed; keeping the last output"@,
                failures,
                error: error@,
            },
        ),
        FinishDisposition::RefreshFailurePainted { error, failures } => Some(
            FailureLogView {
                level: if is_news(failures) {
                    RefreshFailureLogLevel::Warn
                } else {
                    RefreshFailureLogLevel::Debug
                },
                message: "status_line: refresh run failed; painting the error"@,
                failures,
                error: error@,
            },
        ),
    }
}

/// What the log is told of the end of a run.
pub fn refresh_failure_log(disposition: FinishDisposition) -> (r: Option<RefreshFailureLog>)
    ensures
        match r {
            Some(line) => log_of(disposition) == Some(line@),
            None => log_of(disposition) is None,
        },
{
    match disposition {
        FinishDisposition::Applied => None,
        FinishDisposition::RefreshFailureKept { error, failures } => Some(
            RefreshFailureLog {
                level: RefreshFailureLogLevel::Debug,
                message: "status_line: refresh run failed; keeping the last output",
                failures,
                error,
            },
        ),
        FinishDisposition::RefreshFailurePainted { error, failures } => Some(
            RefreshFailureLog {
                level: if failures == 1 || failures == REFRESH_FAILURES_TO_PAINT {
                    RefreshFailureLogLevel::Warn
                } else {
                    RefreshFailureLogLevel::Debug
                },
                message: "status_line: refresh run failed; painting the error",
                failures,
                error,
            },
        ),
    }
}

/// However many runs go on failing after the error has replaced the output, none
/// of them is a warning any more.
pub proof fn law_failures_do_not_flood_the_log(failures: u32, error: String)
    requires
        failures > REFRESH_FAILURES_TO_PAINT,
    ensures
        log_of(FinishDisposition::RefreshFailurePainted { error, failures }) matches Some(line)
            && line.level == RefreshFailureLogLevel::Debug,
{
}

/// What the status command is told of the session.
#[derive(Debug)]
pub struct StatusContext {
    pub cwd: String,
    /// The name of the effort that is set.
    pub effort: Option<String>,
    /// Whether the fast mode is on, where the model has one.
    pub fast_mode: Option<bool>,
}

/// The model of [`StatusContext`].
pub struct StatusContextView {
    pub cwd: Seq<char>,
    pub effort: Option<Seq<char>>,
    pub fast_mode: Option<bool>,
}

impl StatusContext {
    pub open spec fn view(&self) -> StatusContextView {
        StatusContextView {
            cwd: self.cwd@,
            effort: opt_text(self.effort),
            fast_mode: self.fast_mode,
        }
    }
}

/// A snapshot with the effort and the fast mode as they are now.
pub open spec fn overlaid(
    snapshot: StatusContextView,
    models: ModelState,
    fast_on: bool,
) -> StatusContextView {
    StatusContextView {
        effort: match models.reasoning_effort {
            Some(effort) => Some(effort.name()),
            None => None,
        },
        fast_mode: if models.fast_supported() {
            Some(fast_on)
        } else {
            None
        },
        ..snapshot
    }
}

/// Puts the effort and the fast mode as they are now onto a snapshot. A model
/// without a fast mode says nothing of it.
pub fn shell_status_context(
    snapshot: StatusContext,
    models: &ModelState,
    codex_fast_mode: bool,
) -> (r: StatusContext)
    ensures
        r@ == overlaid(snapshot@, *models, codex_fast_mode),
{
    StatusContext {
        cwd: snapshot.cwd,
        effort: match models.reasoning_effort {
            Some(effort) => Some(effort.as_str().to_owned()),
            None => None,
        },
        fast_mode: if models.current_model_supports_fast_mode() {
            Some(codex_fast_mode)
        } else {
            None
        },
    }
}

/// What the status command reads of the model.
pub open spec fn model_json(fast_mode: Option<bool>) -> JsonView {
    JsonView::Object(
        match fast_mode {
            Some(on) => seq![("fast_mode"@, JsonView::Bool(on))],
            None => Seq::empty(),
        },
    )
}

/// What the status command reads. The effort stands beside the model, not in it.
pub open spec fn context_json(context: StatusContextView) -> JsonView {
    let members = seq![
        ("cwd"@, JsonView::Text(context.cwd)),
        ("model"@, model_json(context.fast_mode)),
    ];
    JsonView::Object(
        match context.effort {
            Some(level) => members.push(
                ("effort"@, JsonView::Object(seq![("level"@, JsonView::Text(level))])),
            ),
            None => members,
        },
    )
}

impl StatusContext {
    /// What the status command reads.
    pub fn to_json(&self) -> (r: Json)
        ensures
            r@ == context_json(self@),
    {
        let mut model: Vec<Member> = Vec::new();
        if let Some(on) = self.fast_mode {
            model.push(Member { name: "fast_mode".to_owned(), value: Json::Bool(on) });
        }
        assert(members_view(model@) =~= model_json(self.fast_mode)->Object_0);
        let mut members: Vec<Member> = Vec::new();
        members.push(text_member("cwd", self.cwd.as_str()));
        members.push(Member { name: "model".to_owned(), value: Json::Object(model) });
        assert(members_view(members@) =~= seq![
            ("cwd"@, JsonView::Text(self.cwd@)),
            ("model"@, model_json(self.fast_mode)),
        ]);
        if let Some(level) = &self.effort {
            let ghost before = members_view(members@);
            let mut effort: Vec<Member> = Vec::new();
            effort.push(text_member("level", level.as_str()));
            assert(members_view(effort@) =~= seq![("level"@, JsonView::Text(level@))]);
            let member = Member { name: "effort".to_owned(), value: Json::Object(effort) };
            members.push(member);
            assert(members_view(members@) =~= before.push(("effort"@, member.value@)));
        }
        Json::Object(members)
    }
}

/// The status line is to be drawn again exactly if there is an agent and a row, no
/// run may still answer, and something changed, is due, or a run is overdue.
pub proof fn law_reasons_to_draw(inputs: TickInputs)
    ensures
        inputs.suppressed() <==> !(inputs.has_agent && inputs.row_is_drawn && inputs.run
            != RunSlot::WithinDeadline),
        inputs.has_reason() <==> !(inputs.settled && !inputs.source_changed
            && !inputs.client_fields_changed && !inputs.turn_timer_running && !inputs.forced
            && !inputs.refresh_due && inputs.run != RunSlot::PastDeadline),
{
}

/// A run that succeeds logs nothing. A failure whose output is kept is a detail; a
/// failure that is shown is a warning the first time and when it replaces output,
/// and a detail otherwise. The log is told the error and how many failures it were.
pub proof fn law_what_failures_log(error: String, failures: u32)
    ensures
        log_of(FinishDisposition::Applied) is None,
        log_of(FinishDisposition::RefreshFailureKept { error, failures }) matches Some(line)
            && line.level == RefreshFailureLogLevel::Debug && line.failures == failures
            && line.error == error@,
        log_of(FinishDisposition::RefreshFailurePainted { error, failures }) matches Some(line)
            && line.failures == failures && line.error == error@ && (line.level
            == RefreshFailureLogLevel::Warn <==> failures == 1 || failures == 3),
{
}

/// The effort and the fast mode that the status command reads are those of now,
/// whatever the snapshot held, and the fast mode only of a model that has one.
pub proof fn law_status_shows_what_is_live(
    snapshot: StatusContextView,
    models: ModelState,
    fast_on: bool,
)
    ensures
        ({
            let after = overlaid(snapshot, models, fast_on);
            &&& after.cwd == snapshot.cwd
            &&& models.reasoning_effort matches Some(effort) ==> after.effort == Some(effort.name())
            &&& models.reasoning_effort is None ==> after.effort is None
            &&& models.fast_supported() ==> after.fast_mode == Some(fast_on)
            &&& !models.fast_supported() ==> after.fast_mode is None
        }),
{
}

/// What the status command reads: the directory, whether the fast mode is on in
/// the model, and the level of the effort beside it, each only where it is known.
pub proof fn law_status_is_read_by_name(context: StatusContextView)
    ensures
        ({
            let json = context_json(context);
            &&& json.get("cwd"@) == Some(JsonView::Text(context.cwd))
            &&& json.get_in("model"@, "fast_mode"@) == (match context.fast_mode {
                Some(on) => Some(JsonView::Bool(on)),
                None => None,
            })
            &&& json.get("model"@) is Some
            &&& json.get_in("effort"@, "level"@) == (match context.effort {
                Some(level) => Some(JsonView::Text(level)),
                None => None,
            })
            &&& context.effort is None ==> json.get("effort"@) is None
        }),
{
    reveal_strlit("cwd");
    reveal_strlit("model");
    reveal_strlit("effort");
    assert("cwd"@.len() == 3 && "model"@.len() == 5 && "effort"@.len() == 6);
    let members = context_json(context)->Object_0;
    law_first_member_counts(members, "cwd"@);
    law_first_member_counts(members, "model"@);
    law_first_member_counts(members, "effort"@);
    assert(members[0] == ("cwd"@, JsonView::Text(context.cwd)));
    assert(members[1] == ("model"@, model_json(context.fast_mode)));
    let model = model_json(context.fast_mode)->Object_0;
    law_first_member_counts(model, "fast_mode"@);
    if let Some(on) = context.fast_mode {
        assert(model[0] == ("fast_mode"@, JsonView::Bool(on)));
    }
    if let Some(level) = context.effort {
        let effort = seq![("level"@, JsonView::Text(level))];
        assert(members[2] == ("effort"@, JsonView::Object(effort)));
        law_first_member_counts(effort, "level"@);
        assert(effort[0] == ("level"@, JsonView::Text(level)));
    }
}

} // verus!
