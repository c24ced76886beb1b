//! `/provider`: selects a provider, or logs in to one.

use vstd::prelude::*;
use vstd::string::*;
use crate::auth::model::AuthView;
use crate::auth::provider::{
    format_provider_status, provider_named, provider_statuses, status_lines, status_of, ProviderId,
};
use crate::slash::command::{
    arg_item, arg_items, Action, AppCtx, ArgItem, ArgItemView, CommandExecCtx, CommandResult,
    ResultView,
};
use crate::text::{
    begins_with, concat, contains_text, has_part, joined, law_one_word,
    law_words_around_white_space, lower, split_words, texts, trimmed, words,
};

verus! {

/// Selects a provider, or logs in to one.
pub struct ProviderCommand;

/// All suggestions for the argument.
pub open spec fn provider_items() -> Seq<ArgItemView> {
    seq![
        ArgItemView {
            display: "grok"@,
            match_text: "grok"@,
            insert_text: "grok"@,
            description: "Use Grok (xAI) as the active provider"@,
        },
        ArgItemView {
            display: "openai"@,
            match_text: "openai chatgpt codex"@,
            insert_text: "openai"@,
            description: "Use OpenAI ChatGPT OAuth (Codex) as the active provider"@,
        },
        ArgItemView {
            display: "login grok"@,
            match_text: "login grok"@,
            insert_text: "login grok"@,
            description: "Log in with Grok / xAI"@,
        },
        ArgItemView {
            display: "login openai"@,
            match_text: "login openai chatgpt"@,
            insert_text: "login openai"@,
            description: "Log in with OpenAI ChatGPT OAuth"@,
        },
    ]
}

/// Whether a suggestion fits what has been typed.
pub open spec fn item_fits(item: ArgItemView, query: Seq<char>) -> bool {
    ||| has_part(item.match_text, query)
    ||| has_part(item.display, query)
    ||| has_part(lower(item.description), query)
}

/// The suggestions that fit what has been typed, all of them where nothing has.
pub open spec fn fitting_items(items: Seq<ArgItemView>, typed: Seq<char>) -> Seq<ArgItemView> {
    let query = lower(trimmed(typed));
    if query.len() == 0 {
        items
    } else {
        items.filter(|item: ArgItemView| item_fits(item, query))
    }
}

/// What a provider that is not known is answered with.
pub open spec fn unknown_provider(name: Seq<char>) -> ResultView {
    ResultView::Error("Unknown provider '"@ + name + "'. Use grok or openai."@)
}

/// What comes of the command for the words of its arguments, where there are any.
pub open spec fn provider_outcome(parts: Seq<Seq<char>>) -> ResultView {
    let first = if parts.len() > 0 {
        parts[0]
    } else {
        Seq::empty()
    };
    if lower(first) == lower("login"@) {
        if parts.len() < 2 {
            ResultView::Error("Usage: /provider login <grok|openai>"@)
        } else {
            match provider_named(parts[1]) {
                Some(id) => ResultView::LoginProvider(id),
                None => unknown_provider(parts[1]),
            }
        }
    } else if parts.len() > 1 {
        ResultView::Error("Usage: /provider [grok|openai] | /provider login <grok|openai>"@)
    } else {
        match provider_named(first) {
            Some(id) => ResultView::SetProvider(id),
            None => unknown_provider(first),
        }
    }
}

/// What comes of the command: without arguments, the status of all providers.
pub open spec fn run_outcome(
    args: Seq<char>,
    entries: Seq<(Seq<char>, AuthView)>,
    active: ProviderId,
) -> ResultView {
    if trimmed(args).len() == 0 {
        ResultView::Message(
            joined(
                status_lines(
                    seq![
                        status_of(entries, active, ProviderId::Grok),
                        status_of(entries, active, ProviderId::Openai),
                    ],
                ),
                "\n"@,
            ),
        )
    } else {
        provider_outcome(words(trimmed(args)))
    }
}

fn unknown(name: &str) -> (r: CommandResult)
    ensures
        r@ == unknown_provider(name@),
{
    let mut message = concat("Unknown provider '", name);
    message.append("'. Use grok or openai.");
    CommandResult::Error(message)
}

fn fits(item: &ArgItem, query: &str) -> (r: bool)
    ensures
        r == item_fits(item@, query@),
{
    contains_text(item.match_text.as_str(), query) || contains_text(item.display.as_str(), query)
        || contains_text(item.description.as_str().to_ascii_lowercase().as_str(), query)
}

/// Adds a suggestion if it fits what has been typed.
fn push_fitting(items: &mut Vec<ArgItem>, item: ArgItem, query: &str)
    ensures
        arg_items(final(items)@) == if query@.len() == 0 || item_fits(item@, query@) {
            arg_items(old(items)@).push(item@)
        } else {
            arg_items(old(items)@)
        },
{
    if query.is_empty() || fits(&item, query) {
        let ghost before = arg_items(items@);
        items.push(item);
        assert(arg_items(items@) =~= before.push(item@));
    }
}

impl ProviderCommand {
    pub fn name(&self) -> (r: &'static str)
        ensures
            r@ == "provider"@,
    {
        "provider"
    }

    pub fn aliases(&self) -> (r: Vec<&'static str>)
        ensures
            r@.len() == 1 && r@[0]@ == "providers"@,
    {
        let mut names: Vec<&'static str> = Vec::new();
        names.push("providers");
        names
    }

    pub fn description(&self) -> (r: &'static str)
        ensures
            r@ == "Select or log in to an LLM provider (Grok, OpenAI)"@,
    {
        "Select or log in to an LLM provider (Grok, OpenAI)"
    }

    pub fn usage(&self) -> (r: &'static str)
        ensures
            r@ == "/provider [grok|openai] | /provider login <grok|openai>"@,
    {
        "/provider [grok|openai] | /provider login <grok|openai>"
    }

    pub fn takes_args(&self) -> (r: bool)
        ensures
            r,
    {
        true
    }

    pub fn args_required(&self) -> (r: bool)
        ensures
            !r,
    {
        false
    }

    pub fn arg_placeholder(&self) -> (r: Option<&'static str>)
        ensures
            crate::text::opt_str(r) == Some("[grok|openai|login …]"@),
    {
        Some("[grok|openai|login …]")
    }

    /// The suggestions for the argument that fit what has been typed.
    pub fn suggest_args(&self, _ctx: &AppCtx, args_query: &str) -> (r: Option<Vec<ArgItem>>)
        ensures
            r matches Some(items) && arg_items(items@) == fitting_items(
                provider_items(),
                args_query@,
            ),
    {
        let lowered = args_query.trim().to_ascii_lowercase();
        let query = lowered.as_str();
        let mut items: Vec<ArgItem> = Vec::new();
        proof {
            assert(arg_items(items@) =~= Seq::<ArgItemView>::empty());
        }
        let grok = arg_item("grok", "grok", "grok", "Use Grok (xAI) as the active provider");
        let openai = arg_item(
            "openai",
            "openai chatgpt codex",
            "openai",
            "Use OpenAI ChatGPT OAuth (Codex) as the active provider",
        );
        let login_grok = arg_item(
            "login grok",
            "login grok",
            "login grok",
            "Log in with Grok / xAI",
        );
        let login_openai = arg_item(
            "login openai",
            "login openai chatgpt",
            "login openai",
            "Log in with OpenAI ChatGPT OAuth",
        );
        push_fitting(&mut items, grok, query);
        push_fitting(&mut items, openai, query);
        push_fitting(&mut items, login_grok, query);
        push_fitting(&mut items, login_openai, query);
        proof {
            let all = provider_items();
            let pred = |item: ArgItemView| item_fits(item, query@);
            assert(all.drop_last() =~= seq![grok@, openai@, login_grok@]);
            assert(seq![grok@, openai@, login_grok@].drop_last() =~= seq![grok@, openai@]);
            assert(seq![grok@, openai@].drop_last() =~= seq![grok@]);
            assert(seq![grok@].drop_last() =~= Seq::<ArgItemView>::empty());
            reveal_with_fuel(Seq::<_>::filter, 5);
            if query@.len() == 0 {
                assert(arg_items(items@) =~= all);
            } else {
                assert(arg_items(items@) =~= all.filter(pred));
            }
        }
        Some(items)
    }

    /// Runs the command: it shows the status of all providers, selects one, or
    /// logs in to one.
    pub fn run(&self, ctx: &CommandExecCtx, args: &str) -> (r: CommandResult)
        ensures
            r@ == run_outcome(args@, ctx.auth_store@, ctx.active_provider),
    {
        let bare = args.trim();
        if bare.is_empty() {
            let statuses = provider_statuses(ctx.auth_store, ctx.active_provider);
            return CommandResult::Message(format_provider_status(statuses.as_slice()));
        }
        let parts = split_words(bare);
        assert(texts(parts@).len() == parts@.len());
        proof {
            reveal_strlit("");
            assert(""@ =~= Seq::<char>::empty());
        }
        let first = if parts.len() > 0 {
            assert(texts(parts@)[0] == parts@[0]@);
            parts[0].as_str()
        } else {
            ""
        };
        if first.eq_ignore_ascii_case("login") {
            if parts.len() < 2 {
                return CommandResult::Error("Usage: /provider login <grok|openai>".to_owned());
            }
            assert(texts(parts@)[1] == parts@[1]@);
            return match ProviderId::parse(parts[1].as_str()) {
                Some(id) => CommandResult::Action(Action::LoginProvider(id)),
                None => unknown(parts[1].as_str()),
            };
        }
        if parts.len() > 1 {
            return CommandResult::Error(
                "Usage: /provider [grok|openai] | /provider login <grok|openai>".to_owned(),
            );
        }
        match ProviderId::parse(first) {
            Some(id) => CommandResult::Action(Action::SetProvider(id)),
            None => unknown(first),
        }
    }
}

/// One word selects the provider that it names; the word for a login and a name
/// log in to that provider; anything else is refused.
pub proof fn law_provider_command_selects_or_logs_in(parts: Seq<Seq<char>>)
    ensures
        parts.len() == 1 && lower(parts[0]) != "login"@ ==> (match provider_named(parts[0]) {
            Some(id) => provider_outcome(parts) == ResultView::SetProvider(id),
            None => provider_outcome(parts) is Error,
        }),
        parts.len() >= 2 && lower(parts[0]) == "login"@ ==> (match provider_named(parts[1]) {
            Some(id) => provider_outcome(parts) == ResultView::LoginProvider(id),
            None => provider_outcome(parts) is Error,
        }),
        parts.len() == 1 && lower(parts[0]) == "login"@ ==> provider_outcome(parts) is Error,
        parts.len() >= 2 && lower(parts[0]) != "login"@ ==> provider_outcome(parts) is Error,
{
    reveal_strlit("login");
    assert(lower("login"@) =~= "login"@);
}

/// Without arguments the command tells the status of Grok and then of OpenAI and
/// changes nothing; with arguments it does what their words say.
pub proof fn law_provider_command_without_arguments(
    args: Seq<char>,
    entries: Seq<(Seq<char>, AuthView)>,
    active: ProviderId,
)
    ensures
        trimmed(args).len() == 0 ==> run_outcome(args, entries, active) == ResultView::Message(
            joined(
                status_lines(
                    seq![
                        status_of(entries, active, ProviderId::Grok),
                        status_of(entries, active, ProviderId::Openai),
                    ],
                ),
                "\n"@,
            ),
        ),
        trimmed(args).len() > 0 ==> run_outcome(args, entries, active) == provider_outcome(
            words(trimmed(args)),
        ),
{
}

/// A suggestion is made exactly if what has been typed stands in its match text,
/// its display or, in whatever case, its description; all are where nothing has
/// been typed.
pub proof fn law_fitting_suggestions(items: Seq<ArgItemView>, typed: Seq<char>, item: ArgItemView)
    ensures
        lower(trimmed(typed)).len() == 0 ==> fitting_items(items, typed) == items,
        lower(trimmed(typed)).len() > 0 ==> (fitting_items(items, typed).contains(item)
            <==> items.contains(item) && (has_part(item.match_text, lower(trimmed(typed)))
            || has_part(item.display, lower(trimmed(typed))) || has_part(
            lower(item.description),
            lower(trimmed(typed)),
        ))),
{
    let query = lower(trimmed(typed));
    if query.len() > 0 {
        lemma_filter_keeps(items, |i: ArgItemView| item_fits(i, query), item);
    }
}

proof fn lemma_filter_keeps(
    items: Seq<ArgItemView>,
    pred: spec_fn(ArgItemView) -> bool,
    item: ArgItemView,
)
    ensures
        items.filter(pred).contains(item) <==> items.contains(item) && pred(item),
    decreases items.len(),
{
    reveal(Seq::filter);
    if items.len() > 0 {
        let front = items.drop_last();
        let last = items.last();
        lemma_filter_keeps(front, pred, item);
        assert(items =~= front.push(last));
        lemma_push_contains(front, last, item);
        if pred(last) {
            assert(items.filter(pred) == front.filter(pred).push(last));
            lemma_push_contains(front.filter(pred), last, item);
        }
    }
}

proof fn lemma_push_contains(items: Seq<ArgItemView>, last: ArgItemView, item: ArgItemView)
    ensures
        items.push(last).contains(item) <==> items.contains(item) || item == last,
{
    let all = items.push(last);
    assert(all[items.len() as int] == last);
    if items.contains(item) {
        let k = choose|k: int| 0 <= k < items.len() && items[k] == item;
        assert(all[k] == item);
    }
    if all.contains(item) && item != last {
        let k = choose|k: int| 0 <= k < all.len() && all[k] == item;
        assert(items[k] == item);
    }
}

/// Choosing a suggestion does what it shows: the ones that begin with a login log
/// in to the provider that they name, the others select it.
pub proof fn law_suggestions_do_what_they_show(i: int)
    requires
        0 <= i < provider_items().len(),
    ensures
        ({
            let item = provider_items()[i];
            let outcome = provider_outcome(words(item.insert_text));
            &&& item.insert_text == item.display
            &&& begins_with(item.match_text, item.display)
            &&& item.display == "grok"@ ==> outcome == ResultView::SetProvider(ProviderId::Grok)
            &&& item.display == "openai"@ ==> outcome == ResultView::SetProvider(ProviderId::Openai)
            &&& item.display == "login grok"@ ==> outcome == ResultView::LoginProvider(
                ProviderId::Grok,
            )
            &&& item.display == "login openai"@ ==> outcome == ResultView::LoginProvider(
                ProviderId::Openai,
            )
            &&& item.display == "grok"@ || item.display == "openai"@ || item.display
                == "login grok"@ || item.display == "login openai"@
        }),
{
    reveal_strlit("grok");
    reveal_strlit("openai");
    reveal_strlit("login");
    reveal_strlit("login grok");
    reveal_strlit("login openai");
    reveal_strlit("openai chatgpt codex");
    reveal_strlit("login openai chatgpt");
    assert("openai chatgpt codex"@.subrange(0, 6) =~= "openai"@);
    assert("login openai chatgpt"@.subrange(0, 12) =~= "login openai"@);
    assert("grok"@.subrange(0, 4) =~= "grok"@);
    assert("login grok"@.subrange(0, 10) =~= "login grok"@);
    assert("login grok"@ =~= "login"@ + seq![' '] + "grok"@);
    assert("login openai"@ =~= "login"@ + seq![' '] + "openai"@);
    law_words_around_white_space("login"@, ' ', "grok"@);
    law_words_around_white_space("login"@, ' ', "openai"@);
    law_one_word("login"@);
    law_one_word("grok"@);
    law_one_word("openai"@);
    assert(seq!["login"@] + seq!["grok"@] =~= seq!["login"@, "grok"@]);
    assert(seq!["login"@] + seq!["openai"@] =~= seq!["login"@, "openai"@]);
    assert("grok"@.len() == 4 && "openai"@.len() == 6 && "login grok"@.len() == 10
        && "login openai"@.len() == 12 && "login"@.len() == 5);
    assert(lower("login"@) =~= "login"@);
    assert(lower("grok"@) =~= "grok"@);
    assert(lower("openai"@) =~= "openai"@);
    crate::auth::provider::law_provider_names_round_trip(ProviderId::Grok);
    crate::auth::provider::law_provider_names_round_trip(ProviderId::Openai);
    law_provider_command_selects_or_logs_in(words(provider_items()[i].insert_text));
}

} // verus!
