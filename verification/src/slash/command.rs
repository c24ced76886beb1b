//! What slash commands are given and give back.

use vstd::prelude::*;
use vstd::string::*;
use crate::auth::model::AuthStore;
use crate::auth::provider::ProviderId;
use crate::efforts::ReasoningEffort;
use crate::json::Json;
use crate::text::{opt_text, text_eq};

verus! {

/// One suggestion for the argument of a command.
#[derive(Debug)]
pub struct ArgItem {
    pub display: String,
    pub match_text: String,
    pub insert_text: String,
    pub description: String,
}

/// The model of [`ArgItem`].
#[verifier::ext_equal]
pub struct ArgItemView {
    pub display: Seq<char>,
    pub match_text: Seq<char>,
    pub insert_text: Seq<char>,
    pub description: Seq<char>,
}

impl ArgItem {
    pub open spec fn view(&self) -> ArgItemView {
        ArgItemView {
            display: self.display@,
            match_text: self.match_text@,
            insert_text: self.insert_text@,
            description: self.description@,
        }
    }
}

/// The models of suggestions.
pub open spec fn arg_items(items: Seq<ArgItem>) -> Seq<ArgItemView> {
    items.map_values(|i: ArgItem| i@)
}

/// A suggestion made of texts.
pub(crate) fn arg_item(display: &str, match_text: &str, insert_text: &str, description: &str) -> (r:
    ArgItem)
    ensures
        r@ == (ArgItemView {
            display: display@,
            match_text: match_text@,
            insert_text: insert_text@,
            description: description@,
        }),
{
    ArgItem {
        display: display.to_owned(),
        match_text: match_text.to_owned(),
        insert_text: insert_text.to_owned(),
        description: description.to_owned(),
    }
}

/// A model that can be used, with what is said of it.
pub struct AvailableModel {
    pub id: String,
    pub name: String,
    pub meta: Option<Json>,
}

/// The models that can be used, and the one in use.
pub struct ModelState {
    pub available: Vec<AvailableModel>,
    pub current: Option<String>,
    pub reasoning_effort: Option<ReasoningEffort>,
}

impl Default for ModelState {
    fn default() -> (r: Self)
        ensures
            r.available@ == Seq::<AvailableModel>::empty(),
            r.current is None,
            r.reasoning_effort is None,
    {
        ModelState { available: Vec::new(), current: None, reasoning_effort: None }
    }
}

/// Whether a model says that it has a fast mode.
pub open spec fn says_fast(model: AvailableModel) -> bool {
    match model.meta {
        Some(meta) => match meta@.get("supportsFastMode"@) {
            Some(v) => v.as_truth() == Some(true),
            None => false,
        },
        None => false,
    }
}

/// The first model of that id.
pub open spec fn model_of(models: Seq<AvailableModel>, id: Seq<char>) -> Option<AvailableModel>
    decreases models.len(),
{
    if models.len() == 0 {
        None
    } else if models[0].id@ == id {
        Some(models[0])
    } else {
        model_of(models.drop_first(), id)
    }
}

impl ModelState {
    /// Whether the model in use has a fast mode.
    pub open spec fn fast_supported(self) -> bool {
        match opt_text(self.current) {
            Some(id) => match model_of(self.available@, id) {
                Some(model) => says_fast(model),
                None => false,
            },
            None => false,
        }
    }

    /// Whether the model in use has a fast mode.
    pub fn current_model_supports_fast_mode(&self) -> (r: bool)
        ensures
            r == self.fast_supported(),
    {
        let id = match &self.current {
            Some(id) => id.as_str(),
            None => {
                return false;
            },
        };
        let ghost all = self.available@;
        let mut i: usize = 0;
        assert(all.skip(0) =~= all);
        while i < self.available.len()
            invariant
                i <= self.available.len(),
                all == self.available@,
                opt_text(self.current) == Some(id@),
                model_of(all, id@) == model_of(all.skip(i as int), id@),
            decreases self.available.len() - i,
        {
            assert(all.skip(i as int)[0] == all[i as int]);
            assert(all.skip(i as int).drop_first() =~= all.skip(i + 1));
            if text_eq(self.available[i].id.as_str(), id) {
                return match &self.available[i].meta {
                    Some(meta) => match meta.get("supportsFastMode") {
                        Some(v) => match v.as_truth() {
                            Some(fast) => fast,
                            None => false,
                        },
                        None => false,
                    },
                    None => false,
                };
            }
            i += 1;
        }
        false
    }
}

/// What is known when commands are listed.
pub struct AppCtx<'a> {
    pub models: &'a ModelState,
}

/// What is known when a command runs.
pub struct CommandExecCtx<'a> {
    pub models: &'a ModelState,
    /// Whether the fast mode is on.
    pub codex_fast_mode: bool,
    pub auth_store: &'a AuthStore,
    pub active_provider: ProviderId,
}

/// What a command asks the application to do.
#[derive(Debug)]
pub enum Action {
    LoginProvider(ProviderId),
    SetProvider(ProviderId),
    ConnectProvider { provider: String, api_key: Option<String> },
    SetCodexFastMode(bool),
}

/// What comes of a command.
#[derive(Debug)]
pub enum CommandResult {
    Message(String),
    Error(String),
    Action(Action),
}

/// The model of [`CommandResult`].
pub enum ResultView {
    Message(Seq<char>),
    Error(Seq<char>),
    LoginProvider(ProviderId),
    SetProvider(ProviderId),
    ConnectProvider { provider: Seq<char>, api_key: Option<Seq<char>> },
    SetCodexFastMode(bool),
}

impl CommandResult {
    pub open spec fn view(&self) -> ResultView {
        match self {
            CommandResult::Message(text) => ResultView::Message(text@),
            CommandResult::Error(text) => ResultView::Error(text@),
            CommandResult::Action(Action::LoginProvider(id)) => ResultView::LoginProvider(*id),
            CommandResult::Action(Action::SetProvider(id)) => ResultView::SetProvider(*id),
            CommandResult::Action(
                Action::ConnectProvider { provider, api_key },
            ) => ResultView::ConnectProvider { provider: provider@, api_key: opt_text(*api_key) },
            CommandResult::Action(Action::SetCodexFastMode(on)) => ResultView::SetCodexFastMode(
                *on,
            ),
        }
    }
}

/// The model in use has a fast mode exactly if the first model of its id says so
/// with a truth value; nothing else turns it on.
pub proof fn law_fast_mode_of_the_model_in_use(state: ModelState, k: int)
    ensures
        state.current is None ==> !state.fast_supported(),
        state.current matches Some(id) ==> {
            &&& 0 <= k < state.available@.len() && state.available@[k].id@ == id@ && (forall|j: int|
                0 <= j < k ==> (#[trigger] state.available@[j]).id@ != id@) ==> (
            state.fast_supported() <==> (state.available@[k].meta matches Some(meta) && meta@.get(
                "supportsFastMode"@,
            ) == Some(crate::json::JsonView::Bool(true))))
            &&& (forall|j: int|
                0 <= j < state.available@.len() ==> (#[trigger] state.available@[j]).id@ != id@)
                ==> !state.fast_supported()
        },
{
    if let Some(id) = state.current {
        lemma_model_of(state.available@, id@, k);
    }
}

proof fn lemma_model_of(models: Seq<AvailableModel>, id: Seq<char>, k: int)
    ensures
        0 <= k < models.len() && models[k].id@ == id && (forall|j: int|
            0 <= j < k ==> (#[trigger] models[j]).id@ != id) ==> model_of(models, id) == Some(
            models[k],
        ),
        (forall|j: int| 0 <= j < models.len() ==> (#[trigger] models[j]).id@ != id) ==> model_of(
            models,
            id,
        ) is None,
    decreases models.len(),
{
    if models.len() > 0 {
        let rest = models.drop_first();
        lemma_model_of(rest, id, k - 1);
        assert(forall|j: int| 0 <= j < rest.len() ==> #[trigger] rest[j] == models[j + 1]);
        if k > 0 && (forall|j: int| 0 <= j < k ==> (#[trigger] models[j]).id@ != id) {
            assert(models[0].id@ != id);
        }
        if forall|j: int| 0 <= j < models.len() ==> (#[trigger] models[j]).id@ != id {
            assert(models[0].id@ != id);
        }
    }
}

} // verus!
