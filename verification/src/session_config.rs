//! The options of a session: its model, its reasoning effort and its fast mode.

use vstd::prelude::*;
use vstd::string::*;
use crate::efforts::{
    effort_named, menu, EffortOptionView, ReasoningEffort, ReasoningEffortOption,
};
use crate::json::{
    and_text, law_first_member_counts, members_view, push_text, text_member, Json, JsonView, Member,
};
use crate::text::{opt_text, text_eq};

verus! {

/// The id of the option for the model.
pub const CONFIG_ID_MODEL: &'static str = "model";

/// The id of the option for the reasoning effort.
pub const CONFIG_ID_REASONING_EFFORT: &'static str = "reasoning_effort";

/// The id of the option for the fast mode.
pub const CONFIG_ID_FAST_MODE: &'static str = "fast_mode";

/// The metadata that says whether a client knows boolean options.
pub const BOOLEAN_CONFIG_OPTIONS_META_KEY: &'static str = "x.ai/booleanConfigOptions";

/// A client that is known to know boolean options.
pub const ZED_CLIENT_INFO_NAME: &'static str = "zed";

/// What a client said of itself when it connected.
pub struct ClientInit {
    pub client_name: Option<String>,
    pub meta: Option<Json>,
}

/// What metadata says of boolean options.
pub open spec fn meta_verdict(meta: Option<JsonView>) -> Option<bool> {
    match meta {
        Some(m) => match m.get(BOOLEAN_CONFIG_OPTIONS_META_KEY@) {
            Some(v) => v.as_truth(),
            None => None,
        },
        None => None,
    }
}

/// The model of metadata that may be missing.
pub open spec fn owned_meta(meta: Option<Json>) -> Option<JsonView> {
    match meta {
        Some(m) => Some(m@),
        None => None,
    }
}

/// Whether boolean options may be offered: as the metadata of the session says,
/// else as is known of the session, else as the client is known to do, else as its
/// own metadata says.
pub open spec fn boolean_options_supported(
    session_meta: Option<JsonView>,
    session_stored: Option<bool>,
    init: Option<ClientInit>,
) -> bool {
    match (meta_verdict(session_meta), session_stored, init) {
        (Some(verdict), _, _) => verdict,
        (None, Some(stored), _) => stored,
        (None, None, None) => false,
        (None, None, Some(client)) => {
            ||| opt_text(client.client_name) == Some(ZED_CLIENT_INFO_NAME@)
            ||| meta_verdict(owned_meta(client.meta)) == Some(true)
        },
    }
}

fn meta_boolean_config_options(meta: Option<&Json>) -> (r: Option<bool>)
    ensures
        r == meta_verdict(crate::json::opt_json(meta)),
{
    match meta {
        Some(m) => match m.get(BOOLEAN_CONFIG_OPTIONS_META_KEY) {
            Some(v) => v.as_truth(),
            None => None,
        },
        None => None,
    }
}

/// What a client said of itself, if it said anything.
pub open spec fn init_of(init: Option<&ClientInit>) -> Option<ClientInit> {
    match init {
        Some(i) => Some(*i),
        None => None,
    }
}

/// Whether boolean options may be offered to a client.
pub fn client_supports_standard_boolean_config_options(
    session_meta: Option<&Json>,
    session_stored: Option<bool>,
    init: Option<&ClientInit>,
) -> (r: bool)
    ensures
        r == boolean_options_supported(
            crate::json::opt_json(session_meta),
            session_stored,
            init_of(init),
        ),
{
    if let Some(verdict) = meta_boolean_config_options(session_meta) {
        return verdict;
    }
    if let Some(stored) = session_stored {
        return stored;
    }
    let client = match init {
        Some(client) => client,
        None => {
            return false;
        },
    };
    if let Some(name) = &client.client_name {
        if text_eq(name.as_str(), ZED_CLIENT_INFO_NAME) {
            return true;
        }
    }
    match meta_boolean_config_options(client.meta.as_ref()) {
        Some(verdict) => verdict,
        None => false,
    }
}

/// A model that a session can use.
pub struct SessionModel {
    pub id: String,
    pub name: String,
}

/// The model of [`SessionModel`]: the id and the name that is shown, which is the
/// id where there is no name.
pub open spec fn shown_model(model: SessionModel) -> (Seq<char>, Seq<char>) {
    (
        model.id@,
        if model.name@.len() == 0 {
            model.id@
        } else {
            model.name@
        },
    )
}

/// The ids and shown names of models.
pub open spec fn shown_models(models: Seq<SessionModel>) -> Seq<(Seq<char>, Seq<char>)> {
    models.map_values(|m: SessionModel| shown_model(m))
}

fn model_display_name(model: &SessionModel) -> (r: String)
    ensures
        r@ == shown_model(*model).1,
{
    if model.name.as_str().is_empty() {
        model.id.clone()
    } else {
        model.name.clone()
    }
}

/// One option of a session, in the flat form.
#[derive(Debug)]
pub struct SessionConfigOption {
    pub id: String,
    pub category: String,
    pub label: String,
    pub description: Option<String>,
    pub selected: bool,
}

/// The model of [`SessionConfigOption`].
#[verifier::ext_equal]
pub struct FlatOptionView {
    pub id: Seq<char>,
    pub category: Seq<char>,
    pub label: Seq<char>,
    pub description: Option<Seq<char>>,
    pub selected: bool,
}

impl SessionConfigOption {
    pub open spec fn view(&self) -> FlatOptionView {
        FlatOptionView {
            id: self.id@,
            category: self.category@,
            label: self.label@,
            description: opt_text(self.description),
            selected: self.selected,
        }
    }
}

/// A flat option as clients get it.
pub open spec fn flat_json(option: FlatOptionView) -> JsonView {
    JsonView::Object(
        and_text(
            seq![
                ("id"@, JsonView::Text(option.id)),
                ("category"@, JsonView::Text(option.category)),
                ("label"@, JsonView::Text(option.label)),
            ],
            "description"@,
            option.description,
        ).push(("selected"@, JsonView::Bool(option.selected))),
    )
}

impl SessionConfigOption {
    /// The option as clients get it.
    pub fn to_json(&self) -> (r: Json)
        ensures
            r@ == flat_json(self@),
    {
        let mut members: Vec<Member> = Vec::new();
        members.push(text_member("id", self.id.as_str()));
        members.push(text_member("category", self.category.as_str()));
        members.push(text_member("label", self.label.as_str()));
        assert(members_view(members@) =~= seq![
            ("id"@, JsonView::Text(self.id@)),
            ("category"@, JsonView::Text(self.category@)),
            ("label"@, JsonView::Text(self.label@)),
        ]);
        push_text(&mut members, "description", &self.description);
        let ghost before = members_view(members@);
        members.push(Member { name: "selected".to_owned(), value: Json::Bool(self.selected) });
        assert(members_view(members@) =~= before.push(
            ("selected"@, JsonView::Bool(self.selected)),
        ));
        Json::Object(members)
    }
}

/// The models of flat options.
pub open spec fn flat_views(options: Seq<SessionConfigOption>) -> Seq<FlatOptionView> {
    options.map_values(|o: SessionConfigOption| o@)
}

/// What is told of a session.
#[derive(Debug)]
pub struct GrokSessionDetail {
    pub session_id: String,
    pub kind: String,
    pub cwd: String,
    pub current_model_id: String,
    pub title: Option<String>,
}

impl GrokSessionDetail {
    /// What is told of a session that builds.
    pub fn build(
        session_id: String,
        cwd: String,
        current_model_id: String,
        title: Option<String>,
    ) -> (r: Self)
        ensures
            r.session_id == session_id,
            r.kind@ == "build"@,
            r.cwd == cwd,
            r.current_model_id == current_model_id,
            r.title == title,
    {
        GrokSessionDetail { session_id, kind: "build".to_owned(), cwd, current_model_id, title }
    }

    /// What is told of a session, as clients get it.
    pub fn to_json(&self) -> (r: Json)
        ensures
            r@ == JsonView::Object(
                and_text(
                    seq![
                        ("sessionId"@, JsonView::Text(self.session_id@)),
                        ("kind"@, JsonView::Text(self.kind@)),
                        ("cwd"@, JsonView::Text(self.cwd@)),
                        ("currentModelId"@, JsonView::Text(self.current_model_id@)),
                    ],
                    "title"@,
                    opt_text(self.title),
                ),
            ),
    {
        let mut members: Vec<Member> = Vec::new();
        members.push(text_member("sessionId", self.session_id.as_str()));
        members.push(text_member("kind", self.kind.as_str()));
        members.push(text_member("cwd", self.cwd.as_str()));
        members.push(text_member("currentModelId", self.current_model_id.as_str()));
        assert(members_view(members@) =~= seq![
            ("sessionId"@, JsonView::Text(self.session_id@)),
            ("kind"@, JsonView::Text(self.kind@)),
            ("cwd"@, JsonView::Text(self.cwd@)),
            ("currentModelId"@, JsonView::Text(self.current_model_id@)),
        ]);
        push_text(&mut members, "title", &self.title);
        Json::Object(members)
    }
}

/// The label of an effort.
pub open spec fn label_of_effort(effort: ReasoningEffort) -> Seq<char> {
    match effort {
        ReasoningEffort::Off => "None"@,
        ReasoningEffort::Minimal => "Minimal"@,
        ReasoningEffort::Low => "Low"@,
        ReasoningEffort::Medium => "Medium"@,
        ReasoningEffort::High => "High"@,
        ReasoningEffort::Xhigh => "X-High"@,
        ReasoningEffort::Max => "Max"@,
    }
}

fn effort_label(effort: ReasoningEffort) -> (r: String)
    ensures
        r@ == label_of_effort(effort),
{
    let label = match effort {
        ReasoningEffort::Off => "None",
        ReasoningEffort::Minimal => "Minimal",
        ReasoningEffort::Low => "Low",
        ReasoningEffort::Medium => "Medium",
        ReasoningEffort::High => "High",
        ReasoningEffort::Xhigh => "X-High",
        ReasoningEffort::Max => "Max",
    };
    label.to_owned()
}

/// The efforts that a user can select.
pub open spec fn selectable_efforts() -> Seq<ReasoningEffort> {
    seq![
        ReasoningEffort::Minimal,
        ReasoningEffort::Low,
        ReasoningEffort::Medium,
        ReasoningEffort::High,
        ReasoningEffort::Xhigh,
    ]
}

/// The row for an effort that a user can select.
pub open spec fn session_row(effort: ReasoningEffort) -> EffortOptionView {
    EffortOptionView {
        id: effort.name(),
        value: effort,
        label: label_of_effort(effort),
        description: None,
        default: false,
    }
}

fn session_effort_option(effort: ReasoningEffort) -> (r: ReasoningEffortOption)
    ensures
        r@ == session_row(effort),
{
    ReasoningEffortOption {
        id: effort.as_str().to_owned(),
        value: effort,
        label: effort_label(effort),
        description: None,
        default: false,
    }
}

/// The rows that are offered where the model has no list of its own.
pub fn legacy_session_effort_options() -> (r: Vec<ReasoningEffortOption>)
    ensures
        menu(r@) == selectable_efforts().map_values(|e: ReasoningEffort| session_row(e)),
{
    let mut out: Vec<ReasoningEffortOption> = Vec::new();
    out.push(session_effort_option(ReasoningEffort::Minimal));
    out.push(session_effort_option(ReasoningEffort::Low));
    out.push(session_effort_option(ReasoningEffort::Medium));
    out.push(session_effort_option(ReasoningEffort::High));
    out.push(session_effort_option(ReasoningEffort::Xhigh));
    assert(menu(out@) =~= selectable_efforts().map_values(|e: ReasoningEffort| session_row(e)));
    out
}

/// The flat option for a model.
pub open spec fn model_option(model: (Seq<char>, Seq<char>), current: Seq<char>) -> FlatOptionView {
    FlatOptionView {
        id: model.0,
        category: "model"@,
        label: model.1,
        description: None,
        selected: model.0 == current,
    }
}

/// The flat option for an effort.
pub open spec fn mode_option(
    row: EffortOptionView,
    current: Option<ReasoningEffort>,
) -> FlatOptionView {
    FlatOptionView {
        id: row.id,
        category: "mode"@,
        label: row.label,
        description: row.description,
        selected: current == Some(row.value),
    }
}

/// The options of a session in the flat form: one for each model, then one for
/// each effort.
pub open spec fn flat_options(
    models: Seq<(Seq<char>, Seq<char>)>,
    current_model: Seq<char>,
    efforts: Seq<EffortOptionView>,
    current_effort: Option<ReasoningEffort>,
) -> Seq<FlatOptionView> {
    models.map_values(|m: (Seq<char>, Seq<char>)| model_option(m, current_model))
        + efforts.map_values(|e: EffortOptionView| mode_option(e, current_effort))
}

fn same_effort(effort: ReasoningEffort, current: Option<ReasoningEffort>) -> (r: bool)
    ensures
        r == (current == Some(effort)),
{
    match current {
        Some(c) => c == effort,
        None => false,
    }
}

/// The options of a session in the flat form.
pub fn build_session_config_options(
    available_models: &[SessionModel],
    current_model_id: &str,
    effort_options: &[ReasoningEffortOption],
    current_effort: Option<ReasoningEffort>,
) -> (r: Vec<SessionConfigOption>)
    ensures
        flat_views(r@) == flat_options(
            shown_models(available_models@),
            current_model_id@,
            menu(effort_options@),
            current_effort,
        ),
{
    let ghost models = shown_models(available_models@);
    let ghost rows = menu(effort_options@);
    let ghost first = models.map_values(
        |m: (Seq<char>, Seq<char>)| model_option(m, current_model_id@),
    );
    let ghost second = rows.map_values(|e: EffortOptionView| mode_option(e, current_effort));
    let mut options: Vec<SessionConfigOption> = Vec::new();
    let mut i: usize = 0;
    while i < available_models.len()
        invariant
            i <= available_models@.len(),
            models == shown_models(available_models@),
            first == models.map_values(
                |m: (Seq<char>, Seq<char>)| model_option(m, current_model_id@),
            ),
            flat_views(options@) =~= first.take(i as int),
        decreases available_models@.len() - i,
    {
        let model = &available_models[i];
        let ghost before = flat_views(options@);
        assert(models[i as int] == shown_model(*model));
        let option = SessionConfigOption {
            id: model.id.clone(),
            category: "model".to_owned(),
            label: model_display_name(model),
            description: None,
            selected: text_eq(model.id.as_str(), current_model_id),
        };
        options.push(option);
        assert(flat_views(options@) =~= before.push(option@));
        assert(first[i as int] == option@);
        i += 1;
    }
    assert(first.take(i as int) =~= first);
    let mut k: usize = 0;
    while k < effort_options.len()
        invariant
            k <= effort_options@.len(),
            rows == menu(effort_options@),
            second == rows.map_values(|e: EffortOptionView| mode_option(e, current_effort)),
            flat_views(options@) =~= first + second.take(k as int),
        decreases effort_options@.len() - k,
    {
        let effort = &effort_options[k];
        let ghost before = flat_views(options@);
        assert(rows[k as int] == effort@);
        let option = SessionConfigOption {
            id: effort.id.clone(),
            category: "mode".to_owned(),
            label: effort.label.clone(),
            description: effort.description.clone(),
            selected: same_effort(effort.value, current_effort),
        };
        options.push(option);
        assert(flat_views(options@) =~= before.push(option@));
        assert(second[k as int] == option@);
        k += 1;
    }
    assert(second.take(k as int) =~= second);
    options
}

/// One value of a selection.
#[derive(Debug)]
pub struct SelectValue {
    pub value: String,
    pub name: String,
    pub description: Option<String>,
}

/// The model of [`SelectValue`].
#[verifier::ext_equal]
pub struct SelectValueView {
    pub value: Seq<char>,
    pub name: Seq<char>,
    pub description: Option<Seq<char>>,
}

impl SelectValue {
    pub open spec fn view(&self) -> SelectValueView {
        SelectValueView {
            value: self.value@,
            name: self.name@,
            description: opt_text(self.description),
        }
    }
}

/// The models of values.
pub open spec fn value_views(values: Seq<SelectValue>) -> Seq<SelectValueView> {
    values.map_values(|v: SelectValue| v@)
}

/// The values of a selection, on their own or in groups.
#[derive(Debug)]
pub enum SelectValues {
    Ungrouped(Vec<SelectValue>),
    Grouped(Vec<Vec<SelectValue>>),
    /// Some other form.
    Unknown,
}

/// Where an option belongs.
#[derive(Debug)]
pub enum ConfigCategory {
    Model,
    ThoughtLevel,
    Other(String),
}

/// The model of [`ConfigCategory`].
pub enum CategoryView {
    Model,
    ThoughtLevel,
    Other(Seq<char>),
}

impl ConfigCategory {
    pub open spec fn view(&self) -> CategoryView {
        match self {
            ConfigCategory::Model => CategoryView::Model,
            ConfigCategory::ThoughtLevel => CategoryView::ThoughtLevel,
            ConfigCategory::Other(name) => CategoryView::Other(name@),
        }
    }
}

/// What an option lets the user choose.
#[derive(Debug)]
pub enum ConfigKind {
    Select { current_value: String, values: SelectValues },
    Boolean { on: bool },
    /// Some other choice.
    Unknown,
}

/// One option of a session, in the form of the protocol.
#[derive(Debug)]
pub struct AcpConfigOption {
    pub id: String,
    pub name: String,
    pub description: Option<String>,
    pub category: ConfigCategory,
    pub kind: ConfigKind,
}

/// The model of [`SelectValues`].
pub enum SelectValuesView {
    Ungrouped(Seq<SelectValueView>),
    Grouped(Seq<Seq<SelectValueView>>),
    Unknown,
}

impl SelectValues {
    pub open spec fn view(&self) -> SelectValuesView {
        match self {
            SelectValues::Ungrouped(values) => SelectValuesView::Ungrouped(value_views(values@)),
            SelectValues::Grouped(groups) => SelectValuesView::Grouped(
                groups@.map_values(|g: Vec<SelectValue>| value_views(g@)),
            ),
            SelectValues::Unknown => SelectValuesView::Unknown,
        }
    }
}

/// The model of [`ConfigKind`].
pub enum KindView {
    Select { current_value: Seq<char>, values: SelectValuesView },
    Boolean { on: bool },
    Unknown,
}

impl ConfigKind {
    pub open spec fn view(&self) -> KindView {
        match self {
            ConfigKind::Select { current_value, values } => KindView::Select {
                current_value: current_value@,
                values: values@,
            },
            ConfigKind::Boolean { on } => KindView::Boolean { on: *on },
            ConfigKind::Unknown => KindView::Unknown,
        }
    }
}

/// The model of [`AcpConfigOption`].
pub struct ConfigOptionView {
    pub id: Seq<char>,
    pub name: Seq<char>,
    pub description: Option<Seq<char>>,
    pub category: CategoryView,
    pub kind: KindView,
}

impl AcpConfigOption {
    pub open spec fn view(&self) -> ConfigOptionView {
        ConfigOptionView {
            id: self.id@,
            name: self.name@,
            description: opt_text(self.description),
            category: self.category@,
            kind: self.kind@,
        }
    }
}

/// The models of options.
pub open spec fn option_views(options: Seq<AcpConfigOption>) -> Seq<ConfigOptionView> {
    options.map_values(|o: AcpConfigOption| o@)
}

/// The value for a model.
pub open spec fn model_value(model: (Seq<char>, Seq<char>)) -> SelectValueView {
    SelectValueView { value: model.0, name: model.1, description: None }
}

/// The value for an effort.
pub open spec fn effort_value(row: EffortOptionView) -> SelectValueView {
    SelectValueView { value: row.id, name: row.label, description: row.description }
}

/// The id of the first row for an effort.
pub open spec fn id_of_effort(rows: Seq<EffortOptionView>, effort: ReasoningEffort) -> Option<
    Seq<char>,
>
    decreases rows.len(),
{
    if rows.len() == 0 {
        None
    } else if rows[0].value == effort {
        Some(rows[0].id)
    } else {
        id_of_effort(rows.drop_first(), effort)
    }
}

/// The id of the first row that is the default.
pub open spec fn default_id(rows: Seq<EffortOptionView>) -> Option<Seq<char>>
    decreases rows.len(),
{
    if rows.len() == 0 {
        None
    } else if rows[0].default {
        Some(rows[0].id)
    } else {
        default_id(rows.drop_first())
    }
}

/// The current value of the effort option: that of the current effort, under its
/// own name where no row is for it, else the default, else the first row.
pub open spec fn current_effort_value(
    rows: Seq<EffortOptionView>,
    current: Option<ReasoningEffort>,
) -> Seq<char> {
    match current {
        Some(effort) => match id_of_effort(rows, effort) {
            Some(id) => id,
            None => effort.name(),
        },
        None => match default_id(rows) {
            Some(id) => id,
            None => rows[0].id,
        },
    }
}

/// The option for the model.
pub open spec fn model_select(
    models: Seq<(Seq<char>, Seq<char>)>,
    current_model: Seq<char>,
) -> ConfigOptionView {
    ConfigOptionView {
        id: CONFIG_ID_MODEL@,
        name: "Model"@,
        description: None,
        category: CategoryView::Model,
        kind: KindView::Select {
            current_value: current_model,
            values: SelectValuesView::Ungrouped(
                models.map_values(|m: (Seq<char>, Seq<char>)| model_value(m)),
            ),
        },
    }
}

/// The option for the effort.
pub open spec fn effort_select(
    rows: Seq<EffortOptionView>,
    current: Option<ReasoningEffort>,
) -> ConfigOptionView {
    ConfigOptionView {
        id: CONFIG_ID_REASONING_EFFORT@,
        name: "Reasoning Effort"@,
        description: None,
        category: CategoryView::ThoughtLevel,
        kind: KindView::Select {
            current_value: current_effort_value(rows, current),
            values: SelectValuesView::Ungrouped(
                rows.map_values(|e: EffortOptionView| effort_value(e)),
            ),
        },
    }
}

/// The options of a session: one for the model where there are models, and one
/// for the effort where there are efforts.
pub open spec fn acp_options(
    models: Seq<(Seq<char>, Seq<char>)>,
    current_model: Seq<char>,
    efforts: Seq<EffortOptionView>,
    current_effort: Option<ReasoningEffort>,
) -> Seq<ConfigOptionView> {
    let first = if models.len() == 0 {
        Seq::empty()
    } else {
        seq![model_select(models, current_model)]
    };
    if efforts.len() == 0 {
        first
    } else {
        first.push(effort_select(efforts, current_effort))
    }
}

fn model_values(models: &[SessionModel]) -> (r: Vec<SelectValue>)
    ensures
        value_views(r@) == shown_models(models@).map_values(
            |m: (Seq<char>, Seq<char>)| model_value(m),
        ),
{
    let ghost all = shown_models(models@).map_values(|m: (Seq<char>, Seq<char>)| model_value(m));
    let mut out: Vec<SelectValue> = Vec::new();
    let mut i: usize = 0;
    while i < models.len()
        invariant
            i <= models@.len(),
            all == shown_models(models@).map_values(|m: (Seq<char>, Seq<char>)| model_value(m)),
            value_views(out@) =~= all.take(i as int),
        decreases models@.len() - i,
    {
        let ghost before = value_views(out@);
        assert(shown_models(models@)[i as int] == shown_model(models@[i as int]));
        let value = SelectValue {
            value: models[i].id.clone(),
            name: model_display_name(&models[i]),
            description: None,
        };
        out.push(value);
        assert(value_views(out@) =~= before.push(value@));
        assert(all[i as int] == value@);
        i += 1;
    }
    assert(all.take(i as int) =~= all);
    out
}

fn effort_values(options: &[ReasoningEffortOption]) -> (r: Vec<SelectValue>)
    ensures
        value_views(r@) == menu(options@).map_values(|e: EffortOptionView| effort_value(e)),
{
    let ghost all = menu(options@).map_values(|e: EffortOptionView| effort_value(e));
    let mut out: Vec<SelectValue> = Vec::new();
    let mut i: usize = 0;
    while i < options.len()
        invariant
            i <= options@.len(),
            all == menu(options@).map_values(|e: EffortOptionView| effort_value(e)),
            value_views(out@) =~= all.take(i as int),
        decreases options@.len() - i,
    {
        let ghost before = value_views(out@);
        assert(menu(options@)[i as int] == options@[i as int]@);
        let value = SelectValue {
            value: options[i].id.clone(),
            name: options[i].label.clone(),
            description: options[i].description.clone(),
        };
        out.push(value);
        assert(value_views(out@) =~= before.push(value@));
        assert(all[i as int] == value@);
        i += 1;
    }
    assert(all.take(i as int) =~= all);
    out
}

fn effort_current_value(
    options: &[ReasoningEffortOption],
    current: Option<ReasoningEffort>,
) -> (r: String)
    requires
        options@.len() > 0,
    ensures
        r@ == current_effort_value(menu(options@), current),
{
    let ghost rows = menu(options@);
    let mut i: usize = 0;
    assert(rows.skip(0) =~= rows);
    while i < options.len()
        invariant
            i <= options@.len(),
            rows == menu(options@),
            current matches Some(effort) ==> id_of_effort(rows, effort) == id_of_effort(
                rows.skip(i as int),
                effort,
            ),
            current is None ==> default_id(rows) == default_id(rows.skip(i as int)),
        decreases options@.len() - i,
    {
        assert(rows.skip(i as int)[0] == options@[i as int]@);
        assert(rows.skip(i as int).drop_first() =~= rows.skip(i + 1));
        let found = match current {
            Some(effort) => options[i].value == effort,
            None => options[i].default,
        };
        if found {
            return options[i].id.clone();
        }
        i += 1;
    }
    match current {
        Some(effort) => effort.as_str().to_owned(),
        None => options[0].id.clone(),
    }
}

/// The options of a session in the form of the protocol. The current model and
/// effort are kept even where they are not among the values.
pub fn build_acp_config_options(
    available_models: &[SessionModel],
    current_model_id: &str,
    effort_options: &[ReasoningEffortOption],
    current_effort: Option<ReasoningEffort>,
) -> (r: Vec<AcpConfigOption>)
    ensures
        option_views(r@) == acp_options(
            shown_models(available_models@),
            current_model_id@,
            menu(effort_options@),
            current_effort,
        ),
{
    let mut options: Vec<AcpConfigOption> = Vec::new();
    assert(option_views(options@) =~= Seq::<ConfigOptionView>::empty());
    if available_models.len() > 0 {
        let ghost before = option_views(options@);
        let option = AcpConfigOption {
            id: CONFIG_ID_MODEL.to_owned(),
            name: "Model".to_owned(),
            description: None,
            category: ConfigCategory::Model,
            kind: ConfigKind::Select {
                current_value: current_model_id.to_owned(),
                values: SelectValues::Ungrouped(model_values(available_models)),
            },
        };
        options.push(option);
        assert(option_views(options@) =~= before.push(option@));
        assert(option_views(options@) =~= seq![
            model_select(shown_models(available_models@), current_model_id@),
        ]);
    }
    if effort_options.len() > 0 {
        let ghost before = option_views(options@);
        let option = AcpConfigOption {
            id: CONFIG_ID_REASONING_EFFORT.to_owned(),
            name: "Reasoning Effort".to_owned(),
            description: None,
            category: ConfigCategory::ThoughtLevel,
            kind: ConfigKind::Select {
                current_value: effort_current_value(effort_options, current_effort),
                values: SelectValues::Ungrouped(effort_values(effort_options)),
            },
        };
        options.push(option);
        assert(option_views(options@) =~= before.push(option@));
    }
    options
}

/// What decides whether the fast mode is offered.
#[derive(Clone, Copy, Debug, PartialEq, Eq, Structural)]
pub struct FastModeOptionInput {
    pub current_value: bool,
    pub boolean_supported: bool,
    pub model_fast_capable: bool,
}

/// The option for the fast mode.
pub open spec fn fast_mode_option(current_value: bool) -> ConfigOptionView {
    ConfigOptionView {
        id: CONFIG_ID_FAST_MODE@,
        name: "Fast Mode"@,
        description: Some("Use the priority service tier for lower latency"@),
        category: CategoryView::Other("model_config"@),
        kind: KindView::Boolean { on: current_value },
    }
}

/// The options with the one for the fast mode, where both the client and the
/// model can do with it.
pub open spec fn with_fast_mode(
    options: Seq<ConfigOptionView>,
    fast_mode: Option<FastModeOptionInput>,
) -> Seq<ConfigOptionView> {
    match fast_mode {
        Some(input) if input.boolean_supported && input.model_fast_capable => options.push(
            fast_mode_option(input.current_value),
        ),
        _ => options,
    }
}

/// Adds the option for the fast mode after the others, where both the client and
/// the model can do with it.
pub fn with_fast_mode_option(
    options: Vec<AcpConfigOption>,
    fast_mode: Option<FastModeOptionInput>,
) -> (r: Vec<AcpConfigOption>)
    ensures
        option_views(r@) == with_fast_mode(option_views(options@), fast_mode),
{
    let mut all = options;
    if let Some(input) = fast_mode {
        if input.boolean_supported && input.model_fast_capable {
            let ghost before = option_views(all@);
            let option = AcpConfigOption {
                id: CONFIG_ID_FAST_MODE.to_owned(),
                name: "Fast Mode".to_owned(),
                description: Some("Use the priority service tier for lower latency".to_owned()),
                category: ConfigCategory::Other("model_config".to_owned()),
                kind: ConfigKind::Boolean { on: input.current_value },
            };
            all.push(option);
            assert(option_views(all@) =~= before.push(option@));
        }
    }
    all
}

/// The value that a client sets an option to.
#[derive(Debug)]
pub enum ConfigValue {
    Id(String),
    Boolean(bool),
    /// Some other value.
    Unknown,
}

/// A request to set an option.
#[derive(Debug)]
pub struct SetConfigRequest {
    pub config_id: String,
    pub value: ConfigValue,
}

/// What an option is set to.
#[derive(Debug)]
pub enum ParsedSessionConfigSet {
    Model(String),
    ReasoningEffort(ReasoningEffort),
    FastMode(bool),
}

/// The model of [`ParsedSessionConfigSet`].
pub enum ParsedSetView {
    Model(Seq<char>),
    ReasoningEffort(ReasoningEffort),
    FastMode(bool),
}

impl ParsedSessionConfigSet {
    pub open spec fn view(&self) -> ParsedSetView {
        match self {
            ParsedSessionConfigSet::Model(id) => ParsedSetView::Model(id@),
            ParsedSessionConfigSet::ReasoningEffort(e) => ParsedSetView::ReasoningEffort(*e),
            ParsedSessionConfigSet::FastMode(on) => ParsedSetView::FastMode(*on),
        }
    }
}

/// Why an option cannot be set; each is an error of the request's parameters.
#[derive(Clone, Copy, Debug, PartialEq, Eq, Structural)]
pub enum InvalidConfigParams {
    UnknownConfigId,
    ExpectedValueId,
    UnknownOptionValue,
    ExpectedBoolean,
    UnsupportedKind,
}

impl InvalidConfigParams {
    /// What the client is told.
    pub open spec fn text(self) -> Seq<char> {
        match self {
            InvalidConfigParams::UnknownConfigId => "unknown config id"@,
            InvalidConfigParams::ExpectedValueId => "expected a select value id"@,
            InvalidConfigParams::UnknownOptionValue => "unknown option value"@,
            InvalidConfigParams::ExpectedBoolean => "expected a boolean value"@,
            InvalidConfigParams::UnsupportedKind => "unsupported config option kind"@,
        }
    }

    /// What the client is told.
    pub fn message(self) -> (r: &'static str)
        ensures
            r@ == self.text(),
    {
        match self {
            InvalidConfigParams::UnknownConfigId => "unknown config id",
            InvalidConfigParams::ExpectedValueId => "expected a select value id",
            InvalidConfigParams::UnknownOptionValue => "unknown option value",
            InvalidConfigParams::ExpectedBoolean => "expected a boolean value",
            InvalidConfigParams::UnsupportedKind => "unsupported config option kind",
        }
    }
}

/// Whether one of the values has that id.
pub open spec fn among(values: Seq<SelectValueView>, id: Seq<char>) -> bool {
    exists|i: int| 0 <= i < values.len() && (#[trigger] values[i]).value == id
}

/// Whether a value of one of the groups has that id.
pub open spec fn in_groups(groups: Seq<Seq<SelectValueView>>, id: Seq<char>) -> bool {
    exists|g: int| 0 <= g < groups.len() && among(#[trigger] groups[g], id)
}

/// Whether a selection has a value of that id.
pub open spec fn has_value_id(values: SelectValuesView, id: Seq<char>) -> bool {
    match values {
        SelectValuesView::Ungrouped(all) => among(all, id),
        SelectValuesView::Grouped(groups) => in_groups(groups, id),
        SelectValuesView::Unknown => false,
    }
}

/// The effort that a value of the effort option stands for: that of the first row
/// with that id or of that name, else the effort of that name.
pub open spec fn effort_of_value(id: Seq<char>, rows: Seq<EffortOptionView>) -> Option<
    ReasoningEffort,
>
    decreases rows.len(),
{
    if rows.len() == 0 {
        effort_named(id)
    } else if rows[0].id == id || rows[0].value.name() == id {
        Some(rows[0].value)
    } else {
        effort_of_value(id, rows.drop_first())
    }
}

/// The first option of that id.
pub open spec fn option_of(offered: Seq<ConfigOptionView>, id: Seq<char>) -> Option<
    ConfigOptionView,
>
    decreases offered.len(),
{
    if offered.len() == 0 {
        None
    } else if offered[0].id == id {
        Some(offered[0])
    } else {
        option_of(offered.drop_first(), id)
    }
}

/// What an offered option is set to by a value, or why it cannot be.
pub open spec fn set_option(
    option: ConfigOptionView,
    value: ConfigValue,
    rows: Seq<EffortOptionView>,
) -> Result<ParsedSetView, InvalidConfigParams> {
    match (option.kind, value) {
        (KindView::Select { values, .. }, ConfigValue::Id(id)) => if !has_value_id(values, id@) {
            Err(InvalidConfigParams::UnknownOptionValue)
        } else if option.id == CONFIG_ID_MODEL@ {
            Ok(ParsedSetView::Model(id@))
        } else if option.id == CONFIG_ID_REASONING_EFFORT@ {
            match effort_of_value(id@, rows) {
                Some(effort) => Ok(ParsedSetView::ReasoningEffort(effort)),
                None => Err(InvalidConfigParams::UnknownOptionValue),
            }
        } else {
            Err(InvalidConfigParams::UnknownConfigId)
        },
        (KindView::Select { .. }, _) => Err(InvalidConfigParams::ExpectedValueId),
        (KindView::Boolean { .. }, ConfigValue::Boolean(on)) => if option.id
            == CONFIG_ID_FAST_MODE@ {
            Ok(ParsedSetView::FastMode(on))
        } else {
            Err(InvalidConfigParams::UnknownConfigId)
        },
        (KindView::Boolean { .. }, _) => Err(InvalidConfigParams::ExpectedBoolean),
        (KindView::Unknown, _) => Err(InvalidConfigParams::UnsupportedKind),
    }
}

/// What a request sets, or why it cannot: only options that are offered can be
/// set, and selections only to values that they have.
pub open spec fn set_outcome(
    request: SetConfigRequest,
    offered: Seq<ConfigOptionView>,
    rows: Seq<EffortOptionView>,
) -> Result<ParsedSetView, InvalidConfigParams> {
    match option_of(offered, request.config_id@) {
        None => Err(InvalidConfigParams::UnknownConfigId),
        Some(option) => set_option(option, request.value, rows),
    }
}

fn is_among(values: &Vec<SelectValue>, id: &str) -> (r: bool)
    ensures
        r == among(value_views(values@), id@),
{
    let ghost all = value_views(values@);
    let mut i: usize = 0;
    while i < values.len()
        invariant
            i <= values.len(),
            all == value_views(values@),
            forall|j: int| 0 <= j < i ==> (#[trigger] all[j]).value != id@,
        decreases values.len() - i,
    {
        assert(all[i as int] == values@[i as int]@);
        if text_eq(values[i].value.as_str(), id) {
            return true;
        }
        i += 1;
    }
    false
}

fn is_in_groups(groups: &Vec<Vec<SelectValue>>, id: &str) -> (r: bool)
    ensures
        r == in_groups(groups@.map_values(|g: Vec<SelectValue>| value_views(g@)), id@),
{
    let ghost all = groups@.map_values(|g: Vec<SelectValue>| value_views(g@));
    let mut k: usize = 0;
    while k < groups.len()
        invariant
            k <= groups.len(),
            all == groups@.map_values(|g: Vec<SelectValue>| value_views(g@)),
            forall|j: int| 0 <= j < k ==> !among(#[trigger] all[j], id@),
        decreases groups.len() - k,
    {
        assert(all[k as int] == value_views(groups@[k as int]@));
        if is_among(&groups[k], id) {
            assert(among(all[k as int], id@));
            return true;
        }
        k += 1;
    }
    false
}

/// Whether a selection has a value of that id.
pub fn select_has_value(values: &SelectValues, id: &str) -> (r: bool)
    ensures
        r == has_value_id(values@, id@),
{
    match values {
        SelectValues::Ungrouped(all) => is_among(all, id),
        SelectValues::Grouped(groups) => is_in_groups(groups, id),
        SelectValues::Unknown => false,
    }
}

/// The effort that a value of the effort option stands for.
pub fn effort_for_config_value(value: &str, effort_options: &[ReasoningEffortOption]) -> (r: Option<
    ReasoningEffort,
>)
    ensures
        r == effort_of_value(value@, menu(effort_options@)),
{
    let ghost rows = menu(effort_options@);
    let mut i: usize = 0;
    assert(rows.skip(0) =~= rows);
    while i < effort_options.len()
        invariant
            i <= effort_options@.len(),
            rows == menu(effort_options@),
            effort_of_value(value@, rows) == effort_of_value(value@, rows.skip(i as int)),
        decreases effort_options@.len() - i,
    {
        assert(rows.skip(i as int)[0] == effort_options@[i as int]@);
        assert(rows.skip(i as int).drop_first() =~= rows.skip(i + 1));
        let option = &effort_options[i];
        if text_eq(option.id.as_str(), value) || text_eq(option.value.as_str(), value) {
            return Some(option.value);
        }
        i += 1;
    }
    ReasoningEffort::parse(value)
}

/// The model of the outcome of a request.
pub open spec fn outcome_view(r: Result<ParsedSessionConfigSet, InvalidConfigParams>) -> Result<
    ParsedSetView,
    InvalidConfigParams,
> {
    match r {
        Ok(set) => Ok(set@),
        Err(e) => Err(e),
    }
}

/// Checks a request against the options that are offered.
pub fn parse_set_session_config_option(
    args: &SetConfigRequest,
    offered: &[AcpConfigOption],
    effort_options: &[ReasoningEffortOption],
) -> (r: Result<ParsedSessionConfigSet, InvalidConfigParams>)
    ensures
        outcome_view(r) == set_outcome(*args, option_views(offered@), menu(effort_options@)),
{
    let config_id = args.config_id.as_str();
    let ghost all = option_views(offered@);
    let mut i: usize = 0;
    assert(all.skip(0) =~= all);
    while i < offered.len()
        invariant
            i <= offered@.len(),
            all == option_views(offered@),
            config_id@ == args.config_id@,
            option_of(all, config_id@) == option_of(all.skip(i as int), config_id@),
        decreases offered@.len() - i,
    {
        assert(all.skip(i as int)[0] == offered@[i as int]@);
        assert(all.skip(i as int).drop_first() =~= all.skip(i + 1));
        if text_eq(offered[i].id.as_str(), config_id) {
            return set_from_option(&offered[i], &args.value, effort_options);
        }
        i += 1;
    }
    Err(InvalidConfigParams::UnknownConfigId)
}

fn set_from_option(
    option: &AcpConfigOption,
    value: &ConfigValue,
    effort_options: &[ReasoningEffortOption],
) -> (r: Result<ParsedSessionConfigSet, InvalidConfigParams>)
    ensures
        outcome_view(r) == set_option(option@, *value, menu(effort_options@)),
{
    match &option.kind {
        ConfigKind::Select { current_value: _, values } => {
            let id = match value {
                ConfigValue::Id(id) => id,
                _ => {
                    return Err(InvalidConfigParams::ExpectedValueId);
                },
            };
            if !select_has_value(values, id.as_str()) {
                return Err(InvalidConfigParams::UnknownOptionValue);
            }
            if text_eq(option.id.as_str(), CONFIG_ID_MODEL) {
                Ok(ParsedSessionConfigSet::Model(id.clone()))
            } else if text_eq(option.id.as_str(), CONFIG_ID_REASONING_EFFORT) {
                match effort_for_config_value(id.as_str(), effort_options) {
                    Some(effort) => Ok(ParsedSessionConfigSet::ReasoningEffort(effort)),
                    None => Err(InvalidConfigParams::UnknownOptionValue),
                }
            } else {
                Err(InvalidConfigParams::UnknownConfigId)
            }
        },
        ConfigKind::Boolean { on: _ } => {
            let on = match value {
                ConfigValue::Boolean(on) => *on,
                _ => {
                    return Err(InvalidConfigParams::ExpectedBoolean);
                },
            };
            if text_eq(option.id.as_str(), CONFIG_ID_FAST_MODE) {
                Ok(ParsedSessionConfigSet::FastMode(on))
            } else {
                Err(InvalidConfigParams::UnknownConfigId)
            }
        },
        ConfigKind::Unknown => Err(InvalidConfigParams::UnsupportedKind),
    }
}

/// The options that a session offers.
pub open spec fn all_options(
    models: Seq<(Seq<char>, Seq<char>)>,
    current_model: Seq<char>,
    efforts: Seq<EffortOptionView>,
    current_effort: Option<ReasoningEffort>,
    fast_mode: Option<FastModeOptionInput>,
) -> Seq<ConfigOptionView> {
    with_fast_mode(acp_options(models, current_model, efforts, current_effort), fast_mode)
}

proof fn lemma_option_ids()
    ensures
        CONFIG_ID_MODEL@ != CONFIG_ID_REASONING_EFFORT@,
        CONFIG_ID_MODEL@ != CONFIG_ID_FAST_MODE@,
        CONFIG_ID_REASONING_EFFORT@ != CONFIG_ID_FAST_MODE@,
{
    reveal_strlit("model");
    reveal_strlit("reasoning_effort");
    reveal_strlit("fast_mode");
    assert(CONFIG_ID_MODEL@.len() == 5);
    assert(CONFIG_ID_REASONING_EFFORT@.len() == 16);
    assert(CONFIG_ID_FAST_MODE@.len() == 9);
}

proof fn lemma_option_pushed(
    offered: Seq<ConfigOptionView>,
    last: ConfigOptionView,
    id: Seq<char>,
)
    ensures
        option_of(offered.push(last), id) == if option_of(offered, id) is Some {
            option_of(offered, id)
        } else if last.id == id {
            Some(last)
        } else {
            None
        },
    decreases offered.len(),
{
    let all = offered.push(last);
    if offered.len() == 0 {
        assert(all.drop_first() =~= offered);
    } else {
        lemma_option_pushed(offered.drop_first(), last, id);
        assert(all.drop_first() =~= offered.drop_first().push(last));
    }
}

/// Which options a session offers: the model where there are models, the effort
/// where there are efforts, the fast mode where the client and the model can do
/// with it, and nothing else.
pub proof fn law_offered_options(
    models: Seq<(Seq<char>, Seq<char>)>,
    current_model: Seq<char>,
    efforts: Seq<EffortOptionView>,
    current_effort: Option<ReasoningEffort>,
    fast_mode: Option<FastModeOptionInput>,
    id: Seq<char>,
)
    ensures
        option_of(
            all_options(models, current_model, efforts, current_effort, fast_mode),
            id,
        ) == if id == CONFIG_ID_MODEL@ && models.len() > 0 {
            Some(model_select(models, current_model))
        } else if id == CONFIG_ID_REASONING_EFFORT@ && efforts.len() > 0 {
            Some(effort_select(efforts, current_effort))
        } else if id == CONFIG_ID_FAST_MODE@ && (fast_mode matches Some(input)
            && input.boolean_supported && input.model_fast_capable) {
            Some(fast_mode_option(fast_mode->0.current_value))
        } else {
            None
        },
{
    lemma_option_ids();
    let none = Seq::<ConfigOptionView>::empty();
    let model = model_select(models, current_model);
    let effort = effort_select(efforts, current_effort);
    lemma_option_pushed(none, model, id);
    lemma_option_pushed(none, effort, id);
    lemma_option_pushed(none.push(model), effort, id);
    assert(none.push(model) =~= seq![model]);
    if let Some(input) = fast_mode {
        lemma_option_pushed(
            acp_options(models, current_model, efforts, current_effort),
            fast_mode_option(input.current_value),
            id,
        );
    }
}

/// A session can be set to exactly the models that it offers.
pub proof fn law_set_model_takes_offered_models(
    models: Seq<(Seq<char>, Seq<char>)>,
    current_model: Seq<char>,
    efforts: Seq<EffortOptionView>,
    current_effort: Option<ReasoningEffort>,
    fast_mode: Option<FastModeOptionInput>,
    request: SetConfigRequest,
    id: String,
)
    requires
        request.config_id@ == CONFIG_ID_MODEL@,
        request.value == ConfigValue::Id(id),
    ensures
        ({
            let offered = all_options(models, current_model, efforts, current_effort, fast_mode);
            if exists|i: int| 0 <= i < models.len() && (#[trigger] models[i]).0 == id@ {
                set_outcome(request, offered, efforts) == Ok::<ParsedSetView, InvalidConfigParams>(
                    ParsedSetView::Model(id@),
                )
            } else {
                set_outcome(request, offered, efforts) is Err
            }
        }),
{
    law_offered_options(
        models,
        current_model,
        efforts,
        current_effort,
        fast_mode,
        CONFIG_ID_MODEL@,
    );
    lemma_option_ids();
    let values = models.map_values(|m: (Seq<char>, Seq<char>)| model_value(m));
    if exists|i: int| 0 <= i < models.len() && (#[trigger] models[i]).0 == id@ {
        let i = choose|i: int| 0 <= i < models.len() && (#[trigger] models[i]).0 == id@;
        assert(values[i].value == id@);
        assert(among(values, id@));
    } else if models.len() > 0 {
        assert forall|i: int| 0 <= i < values.len() implies (#[trigger] values[i]).value != id@ by {
            assert(models[i].0 != id@);
        }
        assert(!among(values, id@));
    }
}

proof fn lemma_effort_of_row(id: Seq<char>, rows: Seq<EffortOptionView>, k: int)
    requires
        0 <= k < rows.len(),
        rows[k].id == id,
        forall|j: int|
            0 <= j < k ==> (#[trigger] rows[j]).id != id && rows[j].value.name() != id,
    ensures
        effort_of_value(id, rows) == Some(rows[k].value),
    decreases rows.len(),
{
    if k > 0 {
        let rest = rows.drop_first();
        assert(rows[0].id != id && rows[0].value.name() != id);
        assert forall|j: int| 0 <= j < k - 1 implies (#[trigger] rest[j]).id != id
            && rest[j].value.name() != id by {
            assert(rest[j] == rows[j + 1]);
        }
        lemma_effort_of_row(id, rest, k - 1);
    }
}

/// A session can be set to the effort of each row that it offers, by the id of the
/// row, as long as no row before it goes by that id as well.
pub proof fn law_set_effort_takes_offered_rows(
    models: Seq<(Seq<char>, Seq<char>)>,
    current_model: Seq<char>,
    efforts: Seq<EffortOptionView>,
    current_effort: Option<ReasoningEffort>,
    fast_mode: Option<FastModeOptionInput>,
    request: SetConfigRequest,
    id: String,
    k: int,
)
    requires
        request.config_id@ == CONFIG_ID_REASONING_EFFORT@,
        request.value == ConfigValue::Id(id),
        0 <= k < efforts.len(),
        efforts[k].id == id@,
        forall|j: int|
            0 <= j < k ==> (#[trigger] efforts[j]).id != id@ && efforts[j].value.name() != id@,
    ensures
        set_outcome(
            request,
            all_options(models, current_model, efforts, current_effort, fast_mode),
            efforts,
        ) == Ok::<ParsedSetView, InvalidConfigParams>(
            ParsedSetView::ReasoningEffort(efforts[k].value),
        ),
{
    law_offered_options(
        models,
        current_model,
        efforts,
        current_effort,
        fast_mode,
        CONFIG_ID_REASONING_EFFORT@,
    );
    lemma_option_ids();
    lemma_effort_of_row(id@, efforts, k);
    let values = efforts.map_values(|e: EffortOptionView| effort_value(e));
    assert(values[k].value == id@);
}

/// The fast mode can be switched exactly where it is offered: to clients that know
/// such options, for models that have it.
pub proof fn law_set_fast_mode_where_offered(
    models: Seq<(Seq<char>, Seq<char>)>,
    current_model: Seq<char>,
    efforts: Seq<EffortOptionView>,
    current_effort: Option<ReasoningEffort>,
    fast_mode: Option<FastModeOptionInput>,
    request: SetConfigRequest,
    on: bool,
)
    requires
        request.config_id@ == CONFIG_ID_FAST_MODE@,
        request.value == ConfigValue::Boolean(on),
    ensures
        set_outcome(
            request,
            all_options(models, current_model, efforts, current_effort, fast_mode),
            efforts,
        ) == if fast_mode matches Some(input) && input.boolean_supported
            && input.model_fast_capable {
            Ok::<ParsedSetView, InvalidConfigParams>(ParsedSetView::FastMode(on))
        } else {
            Err(InvalidConfigParams::UnknownConfigId)
        },
{
    law_offered_options(
        models,
        current_model,
        efforts,
        current_effort,
        fast_mode,
        CONFIG_ID_FAST_MODE@,
    );
    lemma_option_ids();
}

/// In the flat form an option is selected exactly if it stands for the current
/// model or the current effort.
pub proof fn law_selected_options_are_current(
    models: Seq<(Seq<char>, Seq<char>)>,
    current_model: Seq<char>,
    efforts: Seq<EffortOptionView>,
    current_effort: Option<ReasoningEffort>,
    i: int,
)
    requires
        0 <= i < models.len() + efforts.len(),
    ensures
        ({
            let option = flat_options(models, current_model, efforts, current_effort)[i];
            option.selected <==> if i < models.len() {
                option.id == current_model
            } else {
                current_effort == Some(efforts[i - models.len()].value)
            }
        }),
{
}

/// Whether boolean options are offered: what the session says decides, else what
/// is known of it; without either a client that is known to know them, or that
/// says so itself, gets them, and no other.
pub proof fn law_boolean_options(
    session_meta: JsonView,
    session_stored: Option<bool>,
    init: ClientInit,
    verdict: bool,
)
    ensures
        session_meta.get("x.ai/booleanConfigOptions"@) == Some(JsonView::Bool(verdict))
            ==> boolean_options_supported(Some(session_meta), session_stored, Some(init))
            == verdict,
        !(session_meta.get("x.ai/booleanConfigOptions"@) matches Some(JsonView::Bool(_)))
            && session_stored == Some(verdict) ==> boolean_options_supported(
            Some(session_meta),
            session_stored,
            Some(init),
        ) == verdict,
        session_stored == Some(verdict) ==> boolean_options_supported(
            None,
            session_stored,
            Some(init),
        ) == verdict,
        boolean_options_supported(None, None, Some(init)) <==> (init.client_name matches Some(name)
            && name@ == "zed"@) || (init.meta matches Some(meta) && meta@.get(
            "x.ai/booleanConfigOptions"@,
        ) == Some(JsonView::Bool(true))),
        !boolean_options_supported(None, None, None),
{
}

/// A model is shown under its name, and under its id where it has none.
pub proof fn law_models_are_shown_by_name(models: Seq<SessionModel>, i: int)
    requires
        0 <= i < models.len(),
    ensures
        shown_models(models).len() == models.len(),
        shown_models(models)[i].0 == models[i].id@,
        models[i].name@.len() > 0 ==> shown_models(models)[i].1 == models[i].name@,
        models[i].name@.len() == 0 ==> shown_models(models)[i].1 == models[i].id@,
{
}

/// The flat options are those for the models, in their order, and then those for
/// the efforts, in theirs, each with its id, its label and its description.
pub proof fn law_flat_options_in_order(
    models: Seq<(Seq<char>, Seq<char>)>,
    current_model: Seq<char>,
    efforts: Seq<EffortOptionView>,
    current_effort: Option<ReasoningEffort>,
    i: int,
)
    ensures
        ({
            let options = flat_options(models, current_model, efforts, current_effort);
            &&& options.len() == models.len() + efforts.len()
            &&& 0 <= i < models.len() ==> options[i].id == models[i].0 && options[i].label
                == models[i].1 && options[i].category == "model"@ && options[i].description is None
            &&& 0 <= i < efforts.len() ==> {
                let option = options[models.len() + i];
                &&& option.id == efforts[i].id
                &&& option.label == efforts[i].label
                &&& option.category == "mode"@
                &&& option.description == efforts[i].description
            }
        }),
{
}

/// A flat option as clients get it has each of its fields under its name, and no
/// description where there is none.
pub proof fn law_flat_options_as_clients_get_them(option: FlatOptionView)
    ensures
        ({
            let json = flat_json(option);
            &&& json.get("id"@) == Some(JsonView::Text(option.id))
            &&& json.get("category"@) == Some(JsonView::Text(option.category))
            &&& json.get("label"@) == Some(JsonView::Text(option.label))
            &&& json.get("selected"@) == Some(JsonView::Bool(option.selected))
            &&& json.get("description"@) == (match option.description {
                Some(text) => Some(JsonView::Text(text)),
                None => None,
            })
        }),
{
    reveal_strlit("id");
    reveal_strlit("category");
    reveal_strlit("label");
    reveal_strlit("selected");
    reveal_strlit("description");
    assert("id"@.len() == 2 && "category"@.len() == 8 && "label"@.len() == 5 && "selected"@.len()
        == 8 && "description"@.len() == 11);
    assert("category"@[0] == 'c' && "selected"@[0] == 's');
    let members = flat_json(option)->Object_0;
    law_first_member_counts(members, "id"@);
    law_first_member_counts(members, "category"@);
    law_first_member_counts(members, "label"@);
    law_first_member_counts(members, "selected"@);
    law_first_member_counts(members, "description"@);
    assert(members[0] == ("id"@, JsonView::Text(option.id)));
    assert(members[1] == ("category"@, JsonView::Text(option.category)));
    assert(members[2] == ("label"@, JsonView::Text(option.label)));
    assert(members[members.len() - 1] == ("selected"@, JsonView::Bool(option.selected)));
    if let Some(text) = option.description {
        assert(members[3] == ("description"@, JsonView::Text(text)));
    }
}

/// The option for the model has the models as its values, in their order, and the
/// current model as its current value, whether or not it is among them.
pub proof fn law_model_option_lists_the_models(
    models: Seq<(Seq<char>, Seq<char>)>,
    current_model: Seq<char>,
    i: int,
)
    ensures
        ({
            let option = model_select(models, current_model);
            &&& option.id == "model"@
            &&& option.kind matches KindView::Select {
                current_value,
                values: SelectValuesView::Ungrouped(values),
            }
            &&& current_value == current_model
            &&& values.len() == models.len()
            &&& 0 <= i < models.len() ==> values[i].value == models[i].0 && values[i].name
                == models[i].1
        }),
{
}

/// The option for the effort has the rows as its values, in their order. Its
/// current value is the id of the first row for the current effort, or the name of
/// that effort where no row is for it; without a current effort it is the id of
/// the first default row, and of the first row where none is the default.
pub proof fn law_effort_option_lists_the_rows(
    rows: Seq<EffortOptionView>,
    current: Option<ReasoningEffort>,
    i: int,
    k: int,
)
    requires
        rows.len() > 0,
    ensures
        ({
            let option = effort_select(rows, current);
            &&& option.id == "reasoning_effort"@
            &&& option.kind matches KindView::Select {
                current_value,
                values: SelectValuesView::Ungrouped(values),
            }
            &&& values.len() == rows.len()
            &&& 0 <= i < rows.len() ==> values[i].value == rows[i].id && values[i].name
                == rows[i].label && values[i].description == rows[i].description
            &&& current matches Some(effort) ==> {
                &&& 0 <= k < rows.len() && rows[k].value == effort && (forall|j: int|
                    0 <= j < k ==> (#[trigger] rows[j]).value != effort) ==> current_value
                    == rows[k].id
                &&& (forall|j: int| 0 <= j < rows.len() ==> (#[trigger] rows[j]).value != effort)
                    ==> current_value == effort.name()
            }
            &&& current is None ==> {
                &&& 0 <= k < rows.len() && rows[k].default && (forall|j: int|
                    0 <= j < k ==> !(#[trigger] rows[j]).default) ==> current_value == rows[k].id
                &&& (forall|j: int| 0 <= j < rows.len() ==> !(#[trigger] rows[j]).default)
                    ==> current_value == rows[0].id
            }
        }),
{
    if let Some(effort) = current {
        lemma_id_of_effort(rows, effort, k);
    } else {
        lemma_default_id(rows, k);
    }
}

proof fn lemma_id_of_effort(rows: Seq<EffortOptionView>, effort: ReasoningEffort, k: int)
    ensures
        0 <= k < rows.len() && rows[k].value == effort && (forall|j: int|
            0 <= j < k ==> (#[trigger] rows[j]).value != effort) ==> id_of_effort(rows, effort)
            == Some(rows[k].id),
        (forall|j: int| 0 <= j < rows.len() ==> (#[trigger] rows[j]).value != effort)
            ==> id_of_effort(rows, effort) is None,
    decreases rows.len(),
{
    if rows.len() > 0 {
        let rest = rows.drop_first();
        lemma_id_of_effort(rest, effort, k - 1);
        assert(forall|j: int| 0 <= j < rest.len() ==> #[trigger] rest[j] == rows[j + 1]);
        if k > 0 && (forall|j: int| 0 <= j < k ==> (#[trigger] rows[j]).value != effort) {
            assert(rows[0].value != effort);
        }
        if forall|j: int| 0 <= j < rows.len() ==> (#[trigger] rows[j]).value != effort {
            assert(rows[0].value != effort);
        }
    }
}

proof fn lemma_default_id(rows: Seq<EffortOptionView>, k: int)
    ensures
        0 <= k < rows.len() && rows[k].default && (forall|j: int|
            0 <= j < k ==> !(#[trigger] rows[j]).default) ==> default_id(rows) == Some(rows[k].id),
        (forall|j: int| 0 <= j < rows.len() ==> !(#[trigger] rows[j]).default) ==> default_id(rows)
            is None,
    decreases rows.len(),
{
    if rows.len() > 0 {
        let rest = rows.drop_first();
        lemma_default_id(rest, k - 1);
        assert(forall|j: int| 0 <= j < rest.len() ==> #[trigger] rest[j] == rows[j + 1]);
        if k > 0 && (forall|j: int| 0 <= j < k ==> !(#[trigger] rows[j]).default) {
            assert(!rows[0].default);
        }
        if forall|j: int| 0 <= j < rows.len() ==> !(#[trigger] rows[j]).default {
            assert(!rows[0].default);
        }
    }
}

/// The options stand in this order: the model, the effort, the fast mode, each
/// where it is offered; the one for the fast mode says whether it is on.
pub proof fn law_options_in_order(
    models: Seq<(Seq<char>, Seq<char>)>,
    current_model: Seq<char>,
    efforts: Seq<EffortOptionView>,
    current_effort: Option<ReasoningEffort>,
    input: FastModeOptionInput,
)
    ensures
        ({
            let options = all_options(models, current_model, efforts, current_effort, Some(input));
            let m: int = if models.len() > 0 {
                1
            } else {
                0
            };
            let e: int = if efforts.len() > 0 {
                1
            } else {
                0
            };
            let f: int = if input.boolean_supported && input.model_fast_capable {
                1
            } else {
                0
            };
            &&& options.len() == m + e + f
            &&& m == 1 ==> options[0].id == "model"@
            &&& e == 1 ==> options[m].id == "reasoning_effort"@
            &&& f == 1 ==> options[m + e].id == "fast_mode"@ && options[m + e].kind == (
            KindView::Boolean { on: input.current_value })
        }),
{
}

/// What a request is refused for: an option that is not offered, a value of the
/// wrong kind, or a value that the option does not have.
pub proof fn law_refused_settings(
    request: SetConfigRequest,
    offered: Seq<ConfigOptionView>,
    rows: Seq<EffortOptionView>,
)
    ensures
        ({
            let outcome = set_outcome(request, offered, rows);
            let option = option_of(offered, request.config_id@);
            &&& (forall|i: int|
                0 <= i < offered.len() ==> (#[trigger] offered[i]).id != request.config_id@)
                ==> outcome == Err::<ParsedSetView, InvalidConfigParams>(
                InvalidConfigParams::UnknownConfigId,
            )
            &&& option matches Some(o) ==> {
                &&& o.kind is Select && !(request.value is Id) ==> outcome == Err::<
                    ParsedSetView,
                    InvalidConfigParams,
                >(InvalidConfigParams::ExpectedValueId)
                &&& o.kind is Boolean && !(request.value is Boolean) ==> outcome == Err::<
                    ParsedSetView,
                    InvalidConfigParams,
                >(InvalidConfigParams::ExpectedBoolean)
                &&& o.kind is Unknown ==> outcome == Err::<ParsedSetView, InvalidConfigParams>(
                    InvalidConfigParams::UnsupportedKind,
                )
                &&& (o.kind matches KindView::Select {
                    values: SelectValuesView::Ungrouped(values),
                    ..
                } && request.value matches ConfigValue::Id(id) && forall|i: int|
                    0 <= i < values.len() ==> (#[trigger] values[i]).value != id@) ==> outcome
                    == Err::<ParsedSetView, InvalidConfigParams>(
                    InvalidConfigParams::UnknownOptionValue,
                )
            }
        }),
{
    if forall|i: int| 0 <= i < offered.len() ==> (#[trigger] offered[i]).id != request.config_id@ {
        lemma_option_missing(offered, request.config_id@);
    }
}

proof fn lemma_option_missing(offered: Seq<ConfigOptionView>, id: Seq<char>)
    requires
        forall|i: int| 0 <= i < offered.len() ==> (#[trigger] offered[i]).id != id,
    ensures
        option_of(offered, id) is None,
    decreases offered.len(),
{
    if offered.len() > 0 {
        let rest = offered.drop_first();
        assert(offered[0].id != id);
        assert forall|i: int| 0 <= i < rest.len() implies (#[trigger] rest[i]).id != id by {
            assert(rest[i] == offered[i + 1]);
        }
        lemma_option_missing(rest, id);
    }
}

/// A value of the effort option stands for the effort of the first row that goes
/// by it, as its id or as the name of its effort, and where no row does for the
/// effort of that name.
pub proof fn law_effort_values_name_rows(id: Seq<char>, rows: Seq<EffortOptionView>, k: int)
    ensures
        0 <= k < rows.len() && (rows[k].id == id || rows[k].value.name() == id) && (forall|j: int|
            0 <= j < k ==> (#[trigger] rows[j]).id != id && rows[j].value.name() != id)
            ==> effort_of_value(id, rows) == Some(rows[k].value),
        (forall|j: int|
            0 <= j < rows.len() ==> (#[trigger] rows[j]).id != id && rows[j].value.name() != id)
            ==> effort_of_value(id, rows) == effort_named(id),
    decreases rows.len(),
{
    if rows.len() > 0 {
        let rest = rows.drop_first();
        law_effort_values_name_rows(id, rest, k - 1);
        assert(forall|j: int| 0 <= j < rest.len() ==> #[trigger] rest[j] == rows[j + 1]);
        if k > 0 && (forall|j: int|
            0 <= j < k ==> (#[trigger] rows[j]).id != id && rows[j].value.name() != id) {
            assert(rows[0].id != id && rows[0].value.name() != id);
        }
        if forall|j: int|
            0 <= j < rows.len() ==> (#[trigger] rows[j]).id != id && rows[j].value.name() != id {
            assert(rows[0].id != id && rows[0].value.name() != id);
        }
    }
}

/// The efforts that a session without a menu of its own can select go from the
/// weakest to the strongest, without none and the maximum. Each row goes by the
/// name of its effort, and none is the default.
pub proof fn law_selectable_efforts(effort: ReasoningEffort, i: int, j: int)
    ensures
        selectable_efforts().contains(effort) <==> effort != ReasoningEffort::Off && effort
            != ReasoningEffort::Max,
        0 <= i < j < selectable_efforts().len() ==> crate::slash::effort_levels::strength(
            selectable_efforts()[i],
        ) < crate::slash::effort_levels::strength(selectable_efforts()[j]),
        session_row(effort).id == effort.name(),
        session_row(effort).value == effort,
        session_row(effort).description is None,
        !session_row(effort).default,
{
    assert(selectable_efforts()[0] == ReasoningEffort::Minimal);
    assert(selectable_efforts()[1] == ReasoningEffort::Low);
    assert(selectable_efforts()[2] == ReasoningEffort::Medium);
    assert(selectable_efforts()[3] == ReasoningEffort::High);
    assert(selectable_efforts()[4] == ReasoningEffort::Xhigh);
}

/// A flat option is selected exactly if it is the one in use.
pub proof fn law_flat_selection(
    model: (Seq<char>, Seq<char>),
    current_model: Seq<char>,
    row: EffortOptionView,
    current: Option<ReasoningEffort>,
)
    ensures
        model_option(model, current_model).selected <==> model.0 == current_model,
        mode_option(row, current).selected <==> (current matches Some(effort) && effort == row.value),
{
}

/// What the rows that a session can select are labelled.
pub proof fn law_session_row_labels(effort: ReasoningEffort)
    ensures
        session_row(effort).label == (match effort {
            ReasoningEffort::Off => "None"@,
            ReasoningEffort::Minimal => "Minimal"@,
            ReasoningEffort::Low => "Low"@,
            ReasoningEffort::Medium => "Medium"@,
            ReasoningEffort::High => "High"@,
            ReasoningEffort::Xhigh => "X-High"@,
            ReasoningEffort::Max => "Max"@,
        }),
{
}

} // verus!
