use agent_client_protocol as acp;
use grok_providers::efforts::{ReasoningEffort, ReasoningEffortOption};
use grok_providers::json::{json_to_text, parse_json, Json};
use grok_providers::session_config::{
    build_acp_config_options, build_session_config_options,
    client_supports_standard_boolean_config_options, effort_for_config_value,
    legacy_session_effort_options, parse_set_session_config_option, select_has_value,
    with_fast_mode_option, AcpConfigOption, ClientInit, ConfigCategory, ConfigKind, ConfigValue,
    FastModeOptionInput, GrokSessionDetail, InvalidConfigParams, ParsedSessionConfigSet,
    SelectValue, SelectValues, SessionConfigOption, SessionModel, SetConfigRequest,
    BOOLEAN_CONFIG_OPTIONS_META_KEY, CONFIG_ID_FAST_MODE, CONFIG_ID_MODEL,
    CONFIG_ID_REASONING_EFFORT,
};

fn model(id: &str, name: &str) -> SessionModel {
    SessionModel { id: id.to_string(), name: name.to_string() }
}

fn effort(id: &str, value: ReasoningEffort, label: &str) -> ReasoningEffortOption {
    ReasoningEffortOption {
        id: id.to_string(),
        value,
        label: label.to_string(),
        description: None,
        default: false,
    }
}

#[test]
fn options_have_one_selected_model_and_a_mode_per_effort() {
    let models = [model("grok-build", "Grok Build"), model("grok-4.5", "Grok 4.5")];
    let opts = build_session_config_options(
        &models,
        "grok-build",
        &legacy_session_effort_options(),
        Some(ReasoningEffort::High),
    );

    let model_opts: Vec<_> = opts.iter().filter(|o| o.category == "model").collect();
    assert_eq!(model_opts.len(), 2);
    let selected_models: Vec<_> = model_opts.iter().filter(|o| o.selected).collect();
    assert_eq!(selected_models.len(), 1);
    assert_eq!(selected_models[0].id, "grok-build");

    let mode_opts: Vec<_> = opts.iter().filter(|o| o.category == "mode").collect();
    assert_eq!(mode_opts.len(), 5);
    let selected_modes: Vec<_> = mode_opts.iter().filter(|o| o.selected).collect();
    assert_eq!(selected_modes.len(), 1);
    assert_eq!(selected_modes[0].id, "high");
    assert_eq!(selected_modes[0].label, "High");
}

#[test]
fn none_effort_is_not_a_user_selectable_mode() {
    let rows = legacy_session_effort_options();
    assert!(rows.iter().all(|row| row.value != ReasoningEffort::Off));
    let models = [model("grok-build", "Grok Build")];
    let opts = build_session_config_options(
        &models,
        "grok-build",
        &rows,
        Some(ReasoningEffort::Off),
    );
    let modes: Vec<_> = opts.iter().filter(|o| o.category == "mode").collect();
    assert!(modes.iter().all(|o| o.id != "none"));
    assert!(modes.iter().all(|o| !o.selected));
}

#[test]
fn no_mode_options_when_model_lacks_effort_support() {
    let models = [model("grok-build", "Grok Build")];
    let opts = build_session_config_options(&models, "grok-build", &[], None);
    assert_eq!(opts.len(), 1);
    assert!(opts.iter().all(|o| o.category == "model"));
}

#[test]
fn model_label_falls_back_to_id_when_name_empty() {
    let models = [model("grok-build", "")];
    let opts = build_session_config_options(&models, "grok-build", &[], None);
    assert_eq!(opts[0].label, "grok-build");
}

fn text<'a>(value: &'a Json, name: &str) -> Option<&'a str> {
    value.get(name).and_then(Json::as_text)
}

#[test]
fn session_config_option_serializes_camel_case() {
    let opt = SessionConfigOption {
        id: "grok-build".to_string(),
        category: "model".to_string(),
        label: "Grok Build".to_string(),
        description: None,
        selected: true,
    };
    let v = opt.to_json();
    assert_eq!(text(&v, "id"), Some("grok-build"));
    assert_eq!(text(&v, "category"), Some("model"));
    assert_eq!(text(&v, "label"), Some("Grok Build"));
    assert_eq!(v.get("selected").and_then(Json::as_truth), Some(true));
    assert!(v.get("description").is_none());
}

#[test]
fn grok_session_detail_serializes_camel_case() {
    let detail = GrokSessionDetail::build(
        "sess-1".to_string(),
        "/Users/me/xai".to_string(),
        "grok-build".to_string(),
        None,
    );
    let v = detail.to_json();
    assert_eq!(text(&v, "sessionId"), Some("sess-1"));
    assert_eq!(text(&v, "kind"), Some("build"));
    assert_eq!(text(&v, "cwd"), Some("/Users/me/xai"));
    assert_eq!(text(&v, "currentModelId"), Some("grok-build"));
    assert!(v.get("title").is_none());
}

fn listed(option: &AcpConfigOption) -> (&str, Vec<(&str, &str, Option<&str>)>) {
    match &option.kind {
        ConfigKind::Select { current_value, values: SelectValues::Ungrouped(rows) } => (
            current_value.as_str(),
            rows.iter()
                .map(|r| (r.value.as_str(), r.name.as_str(), r.description.as_deref()))
                .collect(),
        ),
        other => panic!("expected a plain select, got {other:?}"),
    }
}

#[test]
fn acp_config_options_map_model_and_effort_selectors() {
    let models = [model("grok-build", "Grok Build"), model("grok-4.5", "Grok 4.5")];
    let efforts = [effort("high", ReasoningEffort::High, "High")];

    let options =
        build_acp_config_options(&models, "grok-4.5", &efforts, Some(ReasoningEffort::High));

    assert_eq!(options.len(), 2);
    assert_eq!(options[0].id, CONFIG_ID_MODEL);
    assert_eq!(options[0].name, "Model");
    assert!(options[0].description.is_none());
    assert!(matches!(options[0].category, ConfigCategory::Model));
    assert_eq!(
        listed(&options[0]),
        (
            "grok-4.5",
            vec![("grok-build", "Grok Build", None), ("grok-4.5", "Grok 4.5", None)]
        )
    );
    assert_eq!(options[1].id, CONFIG_ID_REASONING_EFFORT);
    assert_eq!(options[1].name, "Reasoning Effort");
    assert!(options[1].description.is_none());
    assert!(matches!(options[1].category, ConfigCategory::ThoughtLevel));
    assert_eq!(listed(&options[1]), ("high", vec![("high", "High", None)]));
}

#[test]
fn acp_config_options_effort_current_preserves_unlisted_value() {
    let models = [model("grok-4.5", "Grok 4.5")];
    let efforts = [effort("high", ReasoningEffort::High, "High")];
    let options =
        build_acp_config_options(&models, "grok-4.5", &efforts, Some(ReasoningEffort::Low));
    let effort = options
        .iter()
        .find(|o| o.id == CONFIG_ID_REASONING_EFFORT)
        .expect("effort selector present when the model supports effort");
    assert_eq!(listed(effort).0, "low");
}

#[test]
fn acp_config_options_model_current_preserves_unlisted_value() {
    let models = [model("grok-build", "Grok Build"), model("grok-4.5", "Grok 4.5")];
    let options = build_acp_config_options(&models, "stale-model", &[], None);
    let model = options
        .iter()
        .find(|o| o.id == CONFIG_ID_MODEL)
        .expect("model selector present");
    assert_eq!(listed(model).0, "stale-model");
}

#[test]
fn effort_without_a_current_value_is_the_default_row() {
    let mut efforts =
        [effort("deep", ReasoningEffort::Xhigh, "Deep"), effort("low", ReasoningEffort::Low, "Low")];
    let options = build_acp_config_options(&[], "m", &efforts, None);
    assert_eq!(options.len(), 1);
    assert_eq!(listed(&options[0]).0, "deep");
    efforts[1].default = true;
    efforts[1].description = Some("light".into());
    let options = build_acp_config_options(&[], "m", &efforts, None);
    assert_eq!(
        listed(&options[0]),
        ("low", vec![("deep", "Deep", None), ("low", "Low", Some("light"))])
    );
    let options = build_acp_config_options(&[], "m", &efforts, Some(ReasoningEffort::Xhigh));
    assert_eq!(listed(&options[0]).0, "deep");
}

fn init_with_client_name(name: &str) -> ClientInit {
    ClientInit { client_name: Some(name.to_string()), meta: None }
}

fn flag(on: bool) -> Json {
    parse_json(&format!("{{\"{BOOLEAN_CONFIG_OPTIONS_META_KEY}\":{on}}}")).unwrap()
}

#[test]
fn boolean_config_prefers_session_meta_over_zed_and_stored() {
    let init = init_with_client_name("zed");
    assert!(!client_supports_standard_boolean_config_options(
        Some(&flag(false)),
        Some(true),
        Some(&init),
    ));
    assert!(client_supports_standard_boolean_config_options(
        Some(&flag(true)),
        Some(false),
        None,
    ));
}

#[test]
fn boolean_config_uses_stored_session_verdict_when_meta_absent() {
    let init = init_with_client_name("zed");
    assert!(client_supports_standard_boolean_config_options(None, Some(true), Some(&init)));
    assert!(!client_supports_standard_boolean_config_options(None, Some(false), Some(&init)));
}

#[test]
fn boolean_config_direct_stdio_supports_zed_client_info() {
    let zed = init_with_client_name("zed");
    assert!(client_supports_standard_boolean_config_options(None, None, Some(&zed)));
    let other = init_with_client_name("grok-tui");
    assert!(!client_supports_standard_boolean_config_options(None, None, Some(&other)));
    assert!(!client_supports_standard_boolean_config_options(None, None, None));
}

#[test]
fn boolean_config_accepts_initialize_meta_compatibility_key() {
    let init = ClientInit { client_name: None, meta: Some(flag(true)) };
    assert!(client_supports_standard_boolean_config_options(None, None, Some(&init)));
    let init = ClientInit { client_name: None, meta: Some(flag(false)) };
    assert!(!client_supports_standard_boolean_config_options(None, None, Some(&init)));
}

fn acp_opts(
    models: &[SessionModel],
    current: &str,
    efforts: &[ReasoningEffortOption],
    current_effort: Option<ReasoningEffort>,
    fast: Option<FastModeOptionInput>,
) -> Vec<AcpConfigOption> {
    with_fast_mode_option(
        build_acp_config_options(models, current, efforts, current_effort),
        fast,
    )
}

#[test]
fn acp_fast_mode_emitted_only_when_supported_and_model_fast_capable() {
    let models = [model("codex", "Codex")];
    let with = |current_value, boolean_supported, model_fast_capable| {
        acp_opts(
            &models,
            "codex",
            &[],
            None,
            Some(FastModeOptionInput { current_value, boolean_supported, model_fast_capable }),
        )
    };
    assert!(with(true, false, true).iter().all(|o| o.id != CONFIG_ID_FAST_MODE));
    assert!(with(false, true, false).iter().all(|o| o.id != CONFIG_ID_FAST_MODE));
    let enabled = with(true, true, true);
    let fast = enabled.iter().find(|o| o.id == CONFIG_ID_FAST_MODE).expect("fast_mode");
    match &fast.kind {
        ConfigKind::Boolean { on } => assert!(*on),
        other => panic!("expected boolean kind, got {other:?}"),
    }
    assert_eq!(fast.name, "Fast Mode");
    assert_eq!(
        fast.description.as_deref(),
        Some("Use the priority service tier for lower latency")
    );
    assert!(matches!(&fast.category, ConfigCategory::Other(name) if name == "model_config"));
    assert_eq!(acp_opts(&models, "codex", &[], None, None).len(), 1);
}

fn offered_for_validation() -> (Vec<AcpConfigOption>, Vec<ReasoningEffortOption>) {
    let models = [model("grok-build", "Grok Build"), model("grok-4.5", "Grok 4.5")];
    let efforts = legacy_session_effort_options();
    let offered = acp_opts(
        &models,
        "grok-build",
        &efforts,
        Some(ReasoningEffort::High),
        Some(FastModeOptionInput {
            current_value: false,
            boolean_supported: true,
            model_fast_capable: true,
        }),
    );
    (offered, efforts)
}

fn id_request(config_id: &str, value: &str) -> SetConfigRequest {
    SetConfigRequest { config_id: config_id.into(), value: ConfigValue::Id(value.into()) }
}

fn flag_request(config_id: &str, value: bool) -> SetConfigRequest {
    SetConfigRequest { config_id: config_id.into(), value: ConfigValue::Boolean(value) }
}

#[test]
fn set_config_option_accepts_model_effort_and_fast_mode() {
    let (offered, efforts) = offered_for_validation();
    let parse = |request: SetConfigRequest| {
        parse_set_session_config_option(&request, &offered, &efforts).unwrap()
    };
    assert!(matches!(
        parse(id_request(CONFIG_ID_MODEL, "grok-4.5")),
        ParsedSessionConfigSet::Model(id) if id == "grok-4.5"
    ));
    assert!(matches!(
        parse(id_request(CONFIG_ID_REASONING_EFFORT, "low")),
        ParsedSessionConfigSet::ReasoningEffort(ReasoningEffort::Low)
    ));
    assert!(matches!(
        parse(flag_request(CONFIG_ID_FAST_MODE, true)),
        ParsedSessionConfigSet::FastMode(true)
    ));
}

#[test]
fn set_config_option_rejects_unknown_id_value_and_type() {
    let (offered, efforts) = offered_for_validation();
    let refused = |request: SetConfigRequest| {
        parse_set_session_config_option(&request, &offered, &efforts).unwrap_err()
    };
    assert_eq!(
        refused(id_request("not_a_real_id", "x")),
        InvalidConfigParams::UnknownConfigId
    );
    assert_eq!(
        refused(id_request(CONFIG_ID_MODEL, "not-a-model")),
        InvalidConfigParams::UnknownOptionValue
    );
    assert_eq!(
        refused(flag_request(CONFIG_ID_MODEL, true)),
        InvalidConfigParams::ExpectedValueId
    );
    assert_eq!(
        refused(id_request(CONFIG_ID_FAST_MODE, "yes")),
        InvalidConfigParams::ExpectedBoolean
    );
}

fn row(value: &str) -> SelectValue {
    SelectValue { value: value.into(), name: value.into(), description: None }
}

fn option(id: &str, kind: ConfigKind) -> AcpConfigOption {
    AcpConfigOption {
        id: id.into(),
        name: id.into(),
        description: None,
        category: ConfigCategory::Model,
        kind,
    }
}

#[test]
fn set_config_option_refuses_what_no_option_means() {
    let offered = [
        option("odd", ConfigKind::Unknown),
        option("flag", ConfigKind::Boolean { on: false }),
        option(
            "pick",
            ConfigKind::Select {
                current_value: "a".into(),
                values: SelectValues::Grouped(vec![vec![], vec![row("a")]]),
            },
        ),
        option(
            CONFIG_ID_REASONING_EFFORT,
            ConfigKind::Select {
                current_value: "a".into(),
                values: SelectValues::Ungrouped(vec![row("odd"), row("max")]),
            },
        ),
    ];
    let refused = |request: SetConfigRequest| {
        parse_set_session_config_option(&request, &offered, &[]).map_err(|e| e.message())
    };
    assert_eq!(
        refused(id_request("odd", "a")).unwrap_err(),
        "unsupported config option kind"
    );
    assert_eq!(refused(flag_request("flag", true)).unwrap_err(), "unknown config id");
    assert_eq!(refused(id_request("flag", "a")).unwrap_err(), "expected a boolean value");
    assert_eq!(refused(id_request("pick", "a")).unwrap_err(), "unknown config id");
    assert_eq!(refused(flag_request("pick", true)).unwrap_err(), "expected a select value id");
    assert_eq!(
        refused(id_request(CONFIG_ID_REASONING_EFFORT, "odd")).unwrap_err(),
        "unknown option value"
    );
    assert!(matches!(
        refused(id_request(CONFIG_ID_REASONING_EFFORT, "max")),
        Ok(ParsedSessionConfigSet::ReasoningEffort(ReasoningEffort::Max))
    ));
    assert!(!select_has_value(&SelectValues::Unknown, "a"));
}

#[test]
fn remapped_rows_are_found_by_id_and_by_name() {
    let efforts = [effort("deep", ReasoningEffort::Xhigh, "Deep")];
    assert_eq!(effort_for_config_value("deep", &efforts), Some(ReasoningEffort::Xhigh));
    assert_eq!(effort_for_config_value("xhigh", &efforts), Some(ReasoningEffort::Xhigh));
    assert_eq!(effort_for_config_value("none", &efforts), Some(ReasoningEffort::Off));
    assert_eq!(effort_for_config_value("deeper", &efforts), None);
}

#[test]
fn legacy_rows_have_the_historical_labels() {
    let rows = legacy_session_effort_options();
    let labels: Vec<_> = rows.iter().map(|r| (r.id.as_str(), r.label.as_str())).collect();
    assert_eq!(
        labels,
        [
            ("minimal", "Minimal"),
            ("low", "Low"),
            ("medium", "Medium"),
            ("high", "High"),
            ("xhigh", "X-High"),
        ]
    );
}

fn protocol_option(option: &AcpConfigOption) -> acp::SessionConfigOption {
    let made = match &option.kind {
        ConfigKind::Select { current_value, values: SelectValues::Ungrouped(rows) } => {
            let rows: Vec<acp::SessionConfigSelectOption> = rows
                .iter()
                .map(|r| {
                    acp::SessionConfigSelectOption::new(r.value.clone(), r.name.clone())
                        .description(r.description.clone())
                })
                .collect();
            acp::SessionConfigOption::select(
                option.id.clone(),
                option.name.clone(),
                current_value.clone(),
                rows,
            )
        }
        ConfigKind::Boolean { on } => {
            acp::SessionConfigOption::boolean(option.id.clone(), option.name.clone(), *on)
        }
        other => panic!("no such option is built: {other:?}"),
    };
    made.description(option.description.clone()).category(match &option.category {
        ConfigCategory::Model => acp::SessionConfigOptionCategory::Model,
        ConfigCategory::ThoughtLevel => acp::SessionConfigOptionCategory::ThoughtLevel,
        ConfigCategory::Other(name) => acp::SessionConfigOptionCategory::Other(name.clone()),
    })
}

#[test]
fn acp_session_config_option_serializes_to_protocol_shape() {
    let models = [model("grok-build", "Grok Build")];
    let opts = with_fast_mode_option(
        build_acp_config_options(
            &models,
            "grok-build",
            &legacy_session_effort_options(),
            Some(ReasoningEffort::High),
        ),
        Some(FastModeOptionInput {
            current_value: false,
            boolean_supported: true,
            model_fast_capable: true,
        }),
    );
    let opts: Vec<acp::SessionConfigOption> = opts.iter().map(protocol_option).collect();
    let json = serde_json::to_value(&opts).expect("serialize");
    assert_eq!(json[0]["id"], "model");
    assert_eq!(json[0]["name"], "Model");
    assert_eq!(json[0]["category"], "model");
    assert_eq!(json[0]["type"], "select");
    assert_eq!(json[0]["currentValue"], "grok-build");
    assert_eq!(json[0]["options"][0]["value"], "grok-build");
    assert_eq!(json[0]["options"][0]["name"], "Grok Build");
    assert_eq!(json[1]["id"], "reasoning_effort");
    assert_eq!(json[1]["category"], "thought_level");
    assert_eq!(json[1]["type"], "select");
    assert_eq!(json[1]["currentValue"], "high");
    assert_eq!(json[2]["id"], "fast_mode");
    assert_eq!(json[2]["type"], "boolean");
    assert_eq!(json[2]["currentValue"], false);
    assert_eq!(json[2]["category"], "model_config");
}

#[test]
fn new_session_response_keeps_models_legacy_meta_and_top_level_config_options() {
    let models = [model("grok-build", "Grok Build")];
    let current = acp::ModelId::from("grok-build");
    let private = build_session_config_options(&models, "grok-build", &[], None);
    let acp_opts = build_acp_config_options(&models, "grok-build", &[], None);
    let acp_opts: Vec<acp::SessionConfigOption> = acp_opts.iter().map(protocol_option).collect();
    let listed = private
        .iter()
        .map(|option| serde_json::from_str(&json_to_text(&option.to_json())).expect("valid JSON"))
        .collect();
    let mut config = serde_json::Map::new();
    config.insert("options".to_string(), serde_json::Value::Array(listed));
    let mut meta = acp::Meta::new();
    meta.insert("x.ai/sessionConfig".to_string(), serde_json::Value::Object(config));
    let available = vec![acp::ModelInfo::new("grok-build", "Grok Build")];
    let response = acp::NewSessionResponse::new("sess-1")
        .models(Some(acp::SessionModelState::new(current, available)))
        .config_options(Some(acp_opts))
        .meta(meta);
    let json = serde_json::to_value(&response).expect("serialize");
    assert_eq!(json["sessionId"], "sess-1");
    assert_eq!(json["models"]["currentModelId"], "grok-build");
    assert_eq!(json["configOptions"][0]["id"], "model");
    assert_eq!(json["configOptions"][0]["type"], "select");
    assert_eq!(json["_meta"]["x.ai/sessionConfig"]["options"][0]["id"], "grok-build");
    assert_eq!(json["_meta"]["x.ai/sessionConfig"]["options"][0]["category"], "model");
}

#[test]
fn fast_mode_is_set_only_where_it_is_offered() {
    let request = SetConfigRequest {
        config_id: CONFIG_ID_FAST_MODE.to_string(),
        value: ConfigValue::Boolean(true),
    };
    for (boolean_supported, model_fast_capable) in
        [(true, true), (true, false), (false, true), (false, false)]
    {
        let offered = with_fast_mode_option(
            build_acp_config_options(&[model("grok-build", "Grok Build")], "grok-build", &[], None),
            Some(FastModeOptionInput {
                current_value: false,
                boolean_supported,
                model_fast_capable,
            }),
        );
        let outcome = parse_set_session_config_option(&request, &offered, &[]);
        if boolean_supported && model_fast_capable {
            assert!(matches!(outcome, Ok(ParsedSessionConfigSet::FastMode(true))));
        } else {
            assert!(matches!(outcome, Err(InvalidConfigParams::UnknownConfigId)));
        }
    }
}
