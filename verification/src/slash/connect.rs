//! `/connect`: attaches OpenRouter or a ChatGPT subscription.

use vstd::prelude::*;
use vstd::string::*;
use crate::slash::command::{
    arg_item, arg_items, Action, AppCtx, ArgItem, ArgItemView, CommandExecCtx, CommandResult,
    ResultView,
};
use crate::text::{concat, join, joined, lower, split_words, text_eq, texts, trimmed, words};

verus! {

/// Connects a provider of models.
pub struct ConnectCommand;

/// The text that `{:?}` writes for a text: in quotes, with escapes.
pub uninterp spec fn quoted(text: Seq<char>) -> Seq<char>;

/// `format!("{:?}", ..)` of a text: its result is named.
#[verifier::external_body]
fn quote(text: &str) -> (r: String)
    ensures
        r@ == quoted(text@),
{
    format!("{text:?}")
}

/// The suggestions for the argument.
pub open spec fn connect_items() -> Seq<ArgItemView> {
    seq![
        ArgItemView {
            display: "openrouter"@,
            match_text: "openrouter"@,
            insert_text: "openrouter "@,
            description: "OpenRouter API key"@,
        },
        ArgItemView {
            display: "chatgpt"@,
            match_text: "chatgpt"@,
            insert_text: "chatgpt"@,
            description: "ChatGPT Plus/Pro (browser sign-in)"@,
        },
    ]
}

/// What comes of the command for the words of its arguments.
pub open spec fn connect_outcome(parts: Seq<Seq<char>>) -> ResultView {
    if parts.len() == 0 {
        ResultView::Error("provider required: openrouter or chatgpt"@)
    } else if lower(parts[0]) == "openrouter"@ {
        let api_key = trimmed(joined(parts.skip(1), " "@));
        if api_key.len() == 0 {
            ResultView::Error(
                "API key required for "@ + parts[0] + "; usage: /connect "@ + parts[0]
                    + " <api-key>"@,
            )
        } else {
            ResultView::ConnectProvider { provider: lower(parts[0]), api_key: Some(api_key) }
        }
    } else if lower(parts[0]) == "chatgpt"@ {
        if parts.len() > 1 {
            ResultView::Error("ChatGPT uses browser sign-in; usage: /connect chatgpt"@)
        } else {
            ResultView::ConnectProvider { provider: "chatgpt"@, api_key: None }
        }
    } else {
        ResultView::Error(
            "Unknown provider "@ + quoted(parts[0]) + "; try openrouter or chatgpt"@,
        )
    }
}

/// The words from the second on, with a space between each two.
fn rest_of(parts: &Vec<String>) -> (r: String)
    requires
        parts@.len() > 0,
    ensures
        r@ == joined(texts(parts@).skip(1), " "@),
{
    let mut rest: Vec<String> = Vec::new();
    let mut i: usize = 1;
    while i < parts.len()
        invariant
            1 <= i <= parts.len(),
            texts(rest@) =~= texts(parts@).subrange(1, i as int),
        decreases parts.len() - i,
    {
        let ghost before = texts(rest@);
        let word = parts[i].clone();
        rest.push(word);
        assert(texts(rest@) =~= before.push(word@));
        i += 1;
    }
    assert(texts(parts@).subrange(1, i as int) =~= texts(parts@).skip(1));
    join(&rest, " ")
}

impl ConnectCommand {
    pub fn name(&self) -> (r: &'static str)
        ensures
            r@ == "connect"@,
    {
        "connect"
    }

    pub fn description(&self) -> (r: &'static str)
        ensures
            r@ == "Connect OpenRouter or ChatGPT Plus/Pro"@,
    {
        "Connect OpenRouter or ChatGPT Plus/Pro"
    }

    pub fn usage(&self) -> (r: &'static str)
        ensures
            r@ == "/connect <openrouter|chatgpt> [api-key]"@,
    {
        "/connect <openrouter|chatgpt> [api-key]"
    }

    pub fn takes_args(&self) -> (r: bool)
        ensures
            r,
    {
        true
    }

    pub fn args_required(&self) -> (r: bool)
        ensures
            r,
    {
        true
    }

    pub fn arg_placeholder(&self) -> (r: Option<&'static str>)
        ensures
            crate::text::opt_str(r) == Some("<openrouter|chatgpt>"@),
    {
        Some("<openrouter|chatgpt>")
    }

    /// The suggestions for the argument, whatever has been typed.
    pub fn suggest_args(&self, _ctx: &AppCtx, _args_query: &str) -> (r: Option<Vec<ArgItem>>)
        ensures
            r matches Some(items) && arg_items(items@) == connect_items(),
    {
        let mut items: Vec<ArgItem> = Vec::new();
        items.push(arg_item("openrouter", "openrouter", "openrouter ", "OpenRouter API key"));
        items.push(
            arg_item("chatgpt", "chatgpt", "chatgpt", "ChatGPT Plus/Pro (browser sign-in)"),
        );
        assert(arg_items(items@) =~= connect_items());
        Some(items)
    }

    /// Runs the command: OpenRouter needs a key, ChatGPT takes none.
    pub fn run(&self, _ctx: &CommandExecCtx, args: &str) -> (r: CommandResult)
        ensures
            r@ == connect_outcome(words(trimmed(args@))),
    {
        let parts = split_words(args.trim());
        assert(texts(parts@).len() == parts@.len());
        if parts.len() == 0 {
            return CommandResult::Error("provider required: openrouter or chatgpt".to_owned());
        }
        assert(texts(parts@)[0] == parts@[0]@);
        let provider = parts[0].as_str();
        let lowered = provider.to_ascii_lowercase();
        if text_eq(lowered.as_str(), "openrouter") {
            let joined_rest = rest_of(&parts);
            let api_key = joined_rest.as_str().trim();
            if api_key.is_empty() {
                let mut message = concat("API key required for ", provider);
                message.append("; usage: /connect ");
                message.append(provider);
                message.append(" <api-key>");
                return CommandResult::Error(message);
            }
            CommandResult::Action(
                Action::ConnectProvider { provider: lowered, api_key: Some(api_key.to_owned()) },
            )
        } else if text_eq(lowered.as_str(), "chatgpt") {
            if parts.len() > 1 {
                return CommandResult::Error(
                    "ChatGPT uses browser sign-in; usage: /connect chatgpt".to_owned(),
                );
            }
            CommandResult::Action(
                Action::ConnectProvider { provider: "chatgpt".to_owned(), api_key: None },
            )
        } else {
            let mut message = concat("Unknown provider ", quote(provider).as_str());
            message.append("; try openrouter or chatgpt");
            CommandResult::Error(message)
        }
    }
}

/// OpenRouter is connected with the words that follow its name as the key, ChatGPT
/// by its name alone. The name may be in any case. Nothing else is connected.
pub proof fn law_connect_takes_name_and_key(parts: Seq<Seq<char>>, key: Seq<char>)
    ensures
        parts.len() == 0 ==> connect_outcome(parts) is Error,
        parts.len() == 2 && lower(parts[0]) == "openrouter"@ && parts[1] == key && trimmed(key).len()
            > 0 ==> connect_outcome(parts) == (ResultView::ConnectProvider {
            provider: "openrouter"@,
            api_key: Some(trimmed(key)),
        }),
        parts.len() > 0 && lower(parts[0]) == "openrouter"@ ==> (match connect_outcome(parts) {
            ResultView::ConnectProvider { provider, api_key } => provider == "openrouter"@ && api_key
                == Some(trimmed(joined(parts.skip(1), " "@))) && api_key->0.len() > 0,
            ResultView::Error(_) => trimmed(joined(parts.skip(1), " "@)).len() == 0,
            _ => false,
        }),
        parts.len() == 1 && lower(parts[0]) == "chatgpt"@ ==> connect_outcome(parts) == (
        ResultView::ConnectProvider { provider: "chatgpt"@, api_key: None }),
        parts.len() > 1 && lower(parts[0]) == "chatgpt"@ ==> connect_outcome(parts) is Error,
        parts.len() > 0 && lower(parts[0]) != "chatgpt"@ && lower(parts[0]) != "openrouter"@
            ==> connect_outcome(parts) is Error,
{
    reveal_strlit("chatgpt");
    reveal_strlit("openrouter");
    assert("chatgpt"@.len() == 7 && "openrouter"@.len() == 10);
    if parts.len() == 2 {
        assert(parts.skip(1) =~= seq![parts[1]]);
        crate::text::law_joined_parts(parts[1], Seq::empty(), " "@);
    }
}

/// Each suggestion is what connects the provider that it shows: typed alone, the
/// command for ChatGPT connects it, and the one for OpenRouter waits for a key.
pub proof fn law_connect_suggestions_name_providers(i: int)
    requires
        0 <= i < connect_items().len(),
    ensures
        ({
            let item = connect_items()[i];
            &&& item.match_text == item.display
            &&& item.insert_text == item.display || item.insert_text == item.display + " "@
            &&& item.insert_text == item.display ==> connect_outcome(seq![item.display]) == (
            ResultView::ConnectProvider { provider: item.display, api_key: None })
            &&& item.insert_text != item.display ==> connect_outcome(seq![item.display]) is Error
        }),
{
    reveal_strlit("chatgpt");
    reveal_strlit("openrouter");
    reveal_strlit("openrouter ");
    reveal_strlit(" ");
    assert(lower("chatgpt"@) =~= "chatgpt"@);
    assert(lower("openrouter"@) =~= "openrouter"@);
    assert("openrouter "@ =~= "openrouter"@ + " "@);
    assert("openrouter "@.len() == 11 && "openrouter"@.len() == 10 && "chatgpt"@.len() == 7);
    law_connect_takes_name_and_key(seq![connect_items()[i].display], Seq::empty());
    assert(seq![connect_items()[i].display].skip(1) =~= Seq::<Seq<char>>::empty());
    assert(joined(Seq::<Seq<char>>::empty(), " "@) =~= Seq::<char>::empty());
    assert(trimmed(Seq::<char>::empty()).len() == 0);
}

} // verus!
