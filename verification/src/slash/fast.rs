//! `/fast`: turns the fast mode on and off.

use vstd::prelude::*;
use vstd::string::*;
use crate::slash::command::{Action, AppCtx, CommandExecCtx, CommandResult, ResultView};

verus! {

/// Turns the fast mode, the priority tier of service, on and off.
pub struct FastCommand;

/// What comes of the command: the fast mode is switched over where the model has
/// one.
pub open spec fn fast_outcome(supported: bool, on: bool) -> ResultView {
    if supported {
        ResultView::SetCodexFastMode(!on)
    } else {
        ResultView::Error("Current model does not support fast mode"@)
    }
}

impl FastCommand {
    pub fn name(&self) -> (r: &'static str)
        ensures
            r@ == "fast"@,
    {
        "fast"
    }

    pub fn description(&self) -> (r: &'static str)
        ensures
            r@ == "Toggle fast mode (priority service tier)"@,
    {
        "Toggle fast mode (priority service tier)"
    }

    pub fn usage(&self) -> (r: &'static str)
        ensures
            r@ == "/fast"@,
    {
        "/fast"
    }

    /// The command is listed where the model in use has a fast mode.
    pub fn visible(&self, ctx: &AppCtx) -> (r: bool)
        ensures
            r == ctx.models.fast_supported(),
    {
        ctx.models.current_model_supports_fast_mode()
    }

    /// Runs the command. It takes no arguments.
    pub fn run(&self, ctx: &CommandExecCtx, _args: &str) -> (r: CommandResult)
        ensures
            r@ == fast_outcome(ctx.models.fast_supported(), ctx.codex_fast_mode),
    {
        if !ctx.models.current_model_supports_fast_mode() {
            return CommandResult::Error("Current model does not support fast mode".to_owned());
        }
        CommandResult::Action(Action::SetCodexFastMode(!ctx.codex_fast_mode))
    }
}

/// Switching the fast mode over twice leaves it as it was.
pub proof fn law_fast_toggles_back(on: bool)
    ensures
        fast_outcome(true, on) matches ResultView::SetCodexFastMode(then_on) && fast_outcome(
            true,
            then_on,
        ) == ResultView::SetCodexFastMode(on),
{
}

/// The command switches the fast mode over where the model has one, and does
/// nothing but say so where it has none.
pub proof fn law_fast_switches_where_supported(on: bool)
    ensures
        fast_outcome(true, on) == ResultView::SetCodexFastMode(!on),
        fast_outcome(false, on) is Error,
{
}

} // verus!
