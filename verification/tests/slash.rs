use grok_providers::auth::model::AuthStore;
use grok_providers::auth::provider::ProviderId;
use grok_providers::json::{parse_json, Json};
use grok_providers::slash::command::{
    Action, AppCtx, AvailableModel, CommandExecCtx, CommandResult, ModelState,
};
use grok_providers::slash::connect::ConnectCommand;
use grok_providers::slash::fast::FastCommand;
use grok_providers::slash::provider::ProviderCommand;

fn make_ctx<'a>(
    models: &'a ModelState,
    auth_store: &'a AuthStore,
    codex_fast_mode: bool,
) -> CommandExecCtx<'a> {
    CommandExecCtx { models, codex_fast_mode, auth_store, active_provider: ProviderId::Grok }
}

fn connect(args: &str) -> CommandResult {
    let models = ModelState::default();
    let store = AuthStore::new();
    ConnectCommand.run(&make_ctx(&models, &store, false), args)
}

fn provider(args: &str) -> CommandResult {
    let models = ModelState::default();
    let store = AuthStore::new();
    ProviderCommand.run(&make_ctx(&models, &store, false), args)
}

fn error_of(result: CommandResult) -> String {
    match result {
        CommandResult::Error(message) => message,
        other => panic!("expected an error, got {other:?}"),
    }
}

#[test]
fn openrouter_with_key() {
    match connect("openrouter sk-or-test") {
        CommandResult::Action(Action::ConnectProvider { provider, api_key }) => {
            assert_eq!(provider, "openrouter");
            assert_eq!(api_key.as_deref(), Some("sk-or-test"));
        }
        other => panic!("expected ConnectProvider action, got {other:?}"),
    }
}

#[test]
fn chatgpt_without_key() {
    match connect("chatgpt") {
        CommandResult::Action(Action::ConnectProvider { provider, api_key }) => {
            assert_eq!(provider, "chatgpt");
            assert!(api_key.is_none());
        }
        other => panic!("expected ConnectProvider action, got {other:?}"),
    }
}

#[test]
fn openrouter_without_key_errors() {
    assert!(matches!(connect("openrouter"), CommandResult::Error(_)));
    assert_eq!(
        error_of(connect(" OpenRouter ")),
        "API key required for OpenRouter; usage: /connect OpenRouter <api-key>"
    );
}

#[test]
fn opencode_is_not_a_connectable_provider() {
    assert!(matches!(connect("opencode oc-test"), CommandResult::Error(_)));
    assert_eq!(
        error_of(connect("open\"code oc-test")),
        "Unknown provider \"open\\\"code\"; try openrouter or chatgpt"
    );
}

#[test]
fn connect_errors_say_what_is_wrong() {
    assert_eq!(error_of(connect("   ")), "provider required: openrouter or chatgpt");
    assert_eq!(
        error_of(connect("chatgpt extra")),
        "ChatGPT uses browser sign-in; usage: /connect chatgpt"
    );
    match connect("OPENROUTER  a   b ") {
        CommandResult::Action(Action::ConnectProvider { provider, api_key }) => {
            assert_eq!(provider, "openrouter");
            assert_eq!(api_key.as_deref(), Some("a b"));
        }
        other => panic!("expected ConnectProvider action, got {other:?}"),
    }
}

#[test]
fn connect_describes_itself() {
    let models = ModelState::default();
    assert_eq!(ConnectCommand.name(), "connect");
    assert_eq!(ConnectCommand.description(), "Connect OpenRouter or ChatGPT Plus/Pro");
    assert_eq!(ConnectCommand.usage(), "/connect <openrouter|chatgpt> [api-key]");
    assert!(ConnectCommand.takes_args());
    assert!(ConnectCommand.args_required());
    assert_eq!(ConnectCommand.arg_placeholder(), Some("<openrouter|chatgpt>"));
    let items = ConnectCommand.suggest_args(&AppCtx { models: &models }, "x").unwrap();
    assert_eq!(items.len(), 2);
    assert_eq!(items[0].insert_text, "openrouter ");
    assert_eq!(items[1].description, "ChatGPT Plus/Pro (browser sign-in)");
}

#[test]
fn provider_selects_and_logs_in() {
    assert!(matches!(
        provider(" OpenAI "),
        CommandResult::Action(Action::SetProvider(ProviderId::Openai))
    ));
    assert!(matches!(
        provider("LOGIN x.ai"),
        CommandResult::Action(Action::LoginProvider(ProviderId::Grok))
    ));
    assert_eq!(error_of(provider("login")), "Usage: /provider login <grok|openai>");
    assert_eq!(
        error_of(provider("login nope")),
        "Unknown provider 'nope'. Use grok or openai."
    );
    assert_eq!(error_of(provider("nope")), "Unknown provider 'nope'. Use grok or openai.");
    assert_eq!(
        error_of(provider("grok openai")),
        "Usage: /provider [grok|openai] | /provider login <grok|openai>"
    );
}

#[test]
fn provider_without_arguments_shows_the_status() {
    match provider("  ") {
        CommandResult::Message(text) => assert_eq!(
            text,
            "Providers:\n  * Grok (xAI) — not logged in\n    OpenAI (ChatGPT OAuth) — not logged in\n\nUsage: /provider <grok|openai> | /provider login <grok|openai>"
        ),
        other => panic!("expected a message, got {other:?}"),
    }
}

#[test]
fn provider_suggestions_fit_what_is_typed() {
    let models = ModelState::default();
    let ctx = AppCtx { models: &models };
    let shown = |typed: &str| -> Vec<String> {
        ProviderCommand
            .suggest_args(&ctx, typed)
            .unwrap()
            .into_iter()
            .map(|item| item.insert_text)
            .collect()
    };
    assert_eq!(shown(""), ["grok", "openai", "login grok", "login openai"]);
    assert_eq!(shown(" CODEX"), ["openai"]);
    assert_eq!(shown("xai"), ["grok", "login grok"]);
    assert_eq!(shown("login"), ["login grok", "login openai"]);
    assert!(shown("zzz").is_empty());
    assert_eq!(ProviderCommand.name(), "provider");
    assert_eq!(ProviderCommand.aliases(), ["providers"]);
    assert_eq!(
        ProviderCommand.description(),
        "Select or log in to an LLM provider (Grok, OpenAI)"
    );
    assert_eq!(
        ProviderCommand.usage(),
        "/provider [grok|openai] | /provider login <grok|openai>"
    );
    assert!(ProviderCommand.takes_args());
    assert!(!ProviderCommand.args_required());
    assert_eq!(ProviderCommand.arg_placeholder(), Some("[grok|openai|login …]"));
}

fn model_with_fast_mode(supports: bool) -> ModelState {
    ModelState {
        available: vec![AvailableModel {
            id: "chatgpt/gpt-5.4".into(),
            name: "GPT-5.4".into(),
            meta: parse_json(&format!("{{\"supportsFastMode\":{supports}}}")),
        }],
        current: Some("chatgpt/gpt-5.4".into()),
        reasoning_effort: None,
    }
}

fn fast(supports: bool, on: bool) -> CommandResult {
    let models = model_with_fast_mode(supports);
    let store = AuthStore::new();
    FastCommand.run(&make_ctx(&models, &store, on), "")
}

#[test]
fn off_turns_fast_on() {
    assert!(matches!(
        fast(true, false),
        CommandResult::Action(Action::SetCodexFastMode(true))
    ));
}

#[test]
fn on_turns_fast_off() {
    assert!(matches!(
        fast(true, true),
        CommandResult::Action(Action::SetCodexFastMode(false))
    ));
}

#[test]
fn unsupported_returns_error() {
    match fast(false, false) {
        CommandResult::Error(msg) => {
            assert!(msg.contains("does not support fast mode"), "unexpected error: {msg}");
        }
        other => panic!("expected Error, got {other:?}"),
    }
}

#[test]
fn visible_when_supported() {
    let models = model_with_fast_mode(true);
    assert!(FastCommand.visible(&AppCtx { models: &models }));
}

#[test]
fn hidden_when_unsupported() {
    let models = model_with_fast_mode(false);
    assert!(!FastCommand.visible(&AppCtx { models: &models }));
    let empty = ModelState::default();
    assert!(!FastCommand.visible(&AppCtx { models: &empty }));
}

#[test]
fn fast_mode_needs_a_true_flag_on_the_current_model() {
    let mut models = model_with_fast_mode(true);
    models.available[0].meta = Some(Json::Text("supportsFastMode".into()));
    assert!(!models.current_model_supports_fast_mode());
    let mut elsewhere = model_with_fast_mode(true);
    elsewhere.current = Some("other".into());
    assert!(!elsewhere.current_model_supports_fast_mode());
    assert_eq!(FastCommand.name(), "fast");
    assert_eq!(FastCommand.description(), "Toggle fast mode (priority service tier)");
    assert_eq!(FastCommand.usage(), "/fast");
}
