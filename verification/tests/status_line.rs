use grok_providers::efforts::ReasoningEffort;
use grok_providers::json::{parse_json, Json};
use grok_providers::slash::command::{AvailableModel, ModelState};
use grok_providers::status_line::{
    refresh_failure_log, shell_status_context, status_line_tick_demand, FinishDisposition,
    RefreshFailureLogLevel, RunSlot, StatusContext, TickDemand, TickInputs,
    REFRESH_FAILURES_TO_PAINT,
};

/// One labelled single-field change to the base inputs.
type Tweak = (&'static str, fn(&mut TickInputs));

fn quiet() -> TickInputs {
    TickInputs {
        row_is_drawn: true,
        settled: true,
        source_changed: false,
        client_fields_changed: false,
        turn_timer_running: false,
        has_agent: true,
        forced: false,
        refresh_due: false,
        run: RunSlot::Free,
    }
}

/// Every reason to repaint, so a suppression below is visible.
fn busy() -> TickInputs {
    TickInputs {
        settled: false,
        source_changed: true,
        client_fields_changed: true,
        turn_timer_running: true,
        forced: true,
        refresh_due: true,
        ..quiet()
    }
}

#[test]
fn quiet_settled_row_lets_the_loop_park() {
    assert_eq!(status_line_tick_demand(quiet()), TickDemand::Idle);
}

#[test]
fn each_reason_to_repaint_asks_for_ticks() {
    let reasons: [Tweak; 6] = [
        ("a turn is running", |i| i.turn_timer_running = true),
        ("the agent changed", |i| i.source_changed = true),
        ("the session was renamed", |i| i.client_fields_changed = true),
        ("nothing has painted yet", |i| i.settled = false),
        ("a force is owed", |i| i.forced = true),
        ("a refresh is owed", |i| i.refresh_due = true),
    ];
    for (why, raise) in reasons {
        let mut inputs = quiet();
        raise(&mut inputs);
        assert_eq!(status_line_tick_demand(inputs), TickDemand::Slow, "{why}");
    }
    let lost_run = TickInputs { run: RunSlot::PastDeadline, ..quiet() };
    assert_eq!(status_line_tick_demand(lost_run), TickDemand::Slow);
}

#[test]
fn suppressor_beats_every_reason_to_repaint() {
    let suppressors: [Tweak; 3] = [
        ("no agent attached", |i| i.has_agent = false),
        ("no row is drawn", |i| i.row_is_drawn = false),
        ("a run is outstanding", |i| i.run = RunSlot::WithinDeadline),
    ];
    for (why, suppress) in suppressors {
        let mut inputs = busy();
        suppress(&mut inputs);
        assert_eq!(status_line_tick_demand(inputs), TickDemand::Idle, "{why}");
    }
    assert_eq!(status_line_tick_demand(busy()), TickDemand::Slow);
}

#[test]
fn each_disposition_earns_the_log_line_the_guide_promises() {
    let painted = |failures| FinishDisposition::RefreshFailurePainted {
        error: "exit 7".into(),
        failures,
    };
    let line = |disposition| {
        refresh_failure_log(disposition).map(|line| (line.level, line.message, line.failures))
    };

    assert!(refresh_failure_log(FinishDisposition::Applied).is_none());
    assert_eq!(
        line(FinishDisposition::RefreshFailureKept { error: "exit 7".into(), failures: 1 }),
        Some((
            RefreshFailureLogLevel::Debug,
            "status_line: refresh run failed; keeping the last output",
            1,
        )),
        "a kept failure changed nothing the user can see"
    );
    assert_eq!(
        line(painted(1)),
        Some((
            RefreshFailureLogLevel::Warn,
            "status_line: refresh run failed; painting the error",
            1,
        )),
        "painting an unanswered row's first failure is user visible and warns"
    );
    assert_eq!(
        line(painted(REFRESH_FAILURES_TO_PAINT)).map(|(level, ..)| level),
        Some(RefreshFailureLogLevel::Warn),
        "so is the strike that crossed the threshold"
    );
    assert_eq!(
        line(painted(REFRESH_FAILURES_TO_PAINT + 1)).map(|(level, ..)| level),
        Some(RefreshFailureLogLevel::Debug),
        "a script broken all night must not write a warn line per interval"
    );
    assert_eq!(
        refresh_failure_log(painted(1)).map(|line| line.error),
        Some("exit 7".to_string()),
        "the raw error rides the line into the log context"
    );
}

fn installed(supports_fast: bool) -> ModelState {
    let meta = if supports_fast {
        parse_json(r#"{"supportsFastMode":true}"#)
    } else {
        None
    };
    ModelState {
        available: vec![AvailableModel {
            id: "grok-4.5".into(),
            name: "Grok 4.5".into(),
            meta,
        }],
        current: Some("grok-4.5".into()),
        reasoning_effort: None,
    }
}

fn snapshot(effort: Option<&str>) -> StatusContext {
    StatusContext {
        cwd: "/tmp".into(),
        effort: effort.map(str::to_owned),
        fast_mode: None,
    }
}

#[test]
fn overlay_copies_live_effort_and_fast_onto_the_snapshot() {
    let mut models = installed(true);
    models.reasoning_effort = Some(ReasoningEffort::High);

    let ctx = shell_status_context(snapshot(None), &models, true);
    assert_eq!(ctx.effort.as_deref(), Some("high"));
    assert_eq!(ctx.fast_mode, Some(true));
    assert_eq!(ctx.cwd, "/tmp");

    let json = ctx.to_json();
    assert_eq!(json.get_in("effort", "level").and_then(Json::as_text), Some("high"));
    assert_eq!(json.get_in("model", "fast_mode").and_then(Json::as_truth), Some(true));
    assert!(
        json.get_in("model", "reasoning_effort").is_none(),
        "effort lives at the canonical top-level field, not on model"
    );
}

#[test]
fn overlay_reports_fast_false_when_a_capable_model_has_it_off() {
    let ctx = shell_status_context(snapshot(None), &installed(true), false);
    assert_eq!(ctx.fast_mode, Some(false));
    let json = ctx.to_json();
    assert_eq!(json.get_in("model", "fast_mode").and_then(Json::as_truth), Some(false));
}

#[test]
fn overlay_omits_fast_when_the_model_does_not_support_it() {
    let ctx = shell_status_context(snapshot(None), &installed(false), true);
    assert_eq!(ctx.fast_mode, None);
    let json = ctx.to_json();
    assert!(
        json.get_in("model", "fast_mode").is_none(),
        "an unsupported model must not look like non-fast"
    );
    assert!(json.get("model").is_some());
}

#[test]
fn overlay_effort_follows_the_live_model_state_not_the_snapshot() {
    let mut models = installed(false);
    models.reasoning_effort = Some(ReasoningEffort::Low);
    let ctx = shell_status_context(snapshot(Some("stale")), &models, false);
    assert_eq!(ctx.effort.as_deref(), Some("low"));
}

#[test]
fn overlay_clears_stale_effort_when_live_is_unset() {
    let ctx = shell_status_context(snapshot(Some("stale")), &installed(false), false);
    assert!(ctx.effort.is_none());
    assert!(ctx.to_json().get("effort").is_none());
}
