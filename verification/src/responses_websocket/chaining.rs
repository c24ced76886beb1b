//! Which part of a request has to be sent again.

use vstd::prelude::*;
use vstd::string::*;
use crate::json::{
    copy_items, find_member, items_view, law_objects_mean_their_members,
    law_values_mean_themselves, lemma_lookup_with, lemma_lookup_without, lookup, member_meaning,
    members_view, remove_member, set_member, with_member, without_member, Json, JsonView, Member,
};
use crate::text::{
    borrowed, decimal, join, joined, opt_str, opt_text, opt_text_eq, str_texts, text_eq, texts,
    to_decimal,
};

verus! {

/// The request identity that goes into the handshake and the request metadata.
pub struct WebSocketRequestMetadata {
    pub conversation_id: String,
    pub request_id: String,
    pub session_id: String,
    pub turn_id: Option<String>,
}

/// The model of [`WebSocketRequestMetadata`].
pub struct RequestMetadataView {
    pub conversation_id: Seq<char>,
    pub request_id: Seq<char>,
    pub session_id: Seq<char>,
    pub turn_id: Option<Seq<char>>,
}

impl WebSocketRequestMetadata {
    pub open spec fn view(&self) -> RequestMetadataView {
        RequestMetadataView {
            conversation_id: self.conversation_id@,
            request_id: self.request_id@,
            session_id: self.session_id@,
            turn_id: opt_text(self.turn_id),
        }
    }
}

/// A request that has been answered in full.
pub struct CompletedExchange {
    pub full_request: Json,
    pub response_id: String,
    pub output_items: Vec<Json>,
}

/// The model of [`CompletedExchange`].
pub struct ExchangeView {
    pub full_request: JsonView,
    pub response_id: Seq<char>,
    pub output_items: Seq<JsonView>,
}

impl CompletedExchange {
    pub open spec fn view(&self) -> ExchangeView {
        ExchangeView {
            full_request: self.full_request@,
            response_id: self.response_id@,
            output_items: items_view(self.output_items@),
        }
    }
}

/// The model of an exchange that may be missing.
pub open spec fn opt_exchange(e: Option<CompletedExchange>) -> Option<ExchangeView> {
    match e {
        Some(x) => Some(x@),
        None => None,
    }
}

/// The type that an item names, `unknown` where it names none.
pub open spec fn item_type_of(item: JsonView) -> Seq<char> {
    match item.get_text("type"@) {
        Some(t) => t,
        None => "unknown"@,
    }
}

/// The members without those of the given names.
pub open spec fn without_all(
    members: Seq<(Seq<char>, JsonView)>,
    names: Seq<Seq<char>>,
) -> Seq<(Seq<char>, JsonView)>
    decreases names.len(),
{
    if names.len() == 0 {
        members
    } else {
        without_member(without_all(members, names.drop_last()), names.last())
    }
}

/// The fields that only the transport adds to an item.
pub open spec fn transport_fields() -> Seq<Seq<char>> {
    seq!["internal_chat_message_metadata_passthrough"@, "metadata"@]
}

/// The item without its transport fields and the given output-only fields.
pub open spec fn normalized(item: JsonView, output_only: Seq<Seq<char>>) -> JsonView {
    match item {
        JsonView::Object(members) => JsonView::Object(
            without_all(members, transport_fields() + output_only),
        ),
        _ => item,
    }
}

/// Whether two items are equal but for the given fields and those of the
/// transport.
pub open spec fn same_but(a: JsonView, b: JsonView, output_only: Seq<Seq<char>>) -> bool {
    normalized(a, output_only).meaning() == normalized(b, output_only).meaning()
}

/// The texts of the parts of a message, if each part is an input or output text.
pub open spec fn part_texts(parts: Seq<JsonView>) -> Option<Seq<Seq<char>>>
    decreases parts.len(),
{
    if parts.len() == 0 {
        Some(Seq::empty())
    } else {
        let kind = parts.last().get_text("type"@);
        match (part_texts(parts.drop_last()), parts.last().get_text("text"@)) {
            (Some(front), Some(text)) if kind == Some("output_text"@) || kind == Some(
                "input_text"@,
            ) => Some(front.push(text)),
            _ => None,
        }
    }
}

/// The text of a message: its content, or the lines of its parts.
pub open spec fn message_text_of(item: JsonView) -> Option<Seq<char>> {
    match item.get("content"@) {
        Some(JsonView::Text(text)) => Some(text),
        Some(JsonView::Array(parts)) => match part_texts(parts) {
            Some(lines) => Some(joined(lines, "\n"@)),
            None => None,
        },
        _ => None,
    }
}

/// Whether an item of a request stands for the same as an item of the request
/// before it.
pub open spec fn request_item_same(previous: JsonView, current: JsonView) -> bool {
    previous.meaning() == current.meaning() || same_but(previous, current, Seq::empty())
}

/// Whether a message of a request stands for the same as a message that the
/// response held.
pub open spec fn message_same(response: JsonView, request: JsonView) -> bool {
    &&& item_type_of(request) == "message"@
    &&& response.get_text("role"@) == request.get_text("role"@)
    &&& message_text_of(response) == message_text_of(request)
}

/// Whether an item of a request stands for the same as an item that the response
/// held.
pub open spec fn response_item_same(response: JsonView, request: JsonView) -> bool {
    let kind = item_type_of(response);
    ||| response.meaning() == request.meaning()
    ||| if kind == "message"@ {
        message_same(response, request)
    } else if kind == "reasoning"@ {
        same_but(response, request, seq!["status"@])
    } else if kind == "function_call"@ {
        same_but(response, request, seq!["id"@, "status"@])
    } else {
        request_item_same(response, request)
    }
}

/// The members of a request that do not decide whether a response can be
/// continued.
pub open spec fn ignored_properties() -> Seq<Seq<char>> {
    seq!["input"@, "client_metadata"@, "previous_response_id"@, "type"@, "stream_options"@]
}

/// The members of a request that decide whether a response can be continued.
pub open spec fn properties_of(request: JsonView) -> Option<JsonView> {
    match request {
        JsonView::Object(members) => Some(JsonView::Object(without_all(members, ignored_properties()))),
        _ => None,
    }
}

/// Whether two requests agree in the members that decide whether a response can
/// be continued.
pub open spec fn same_properties(a: JsonView, b: JsonView) -> bool {
    match (properties_of(a), properties_of(b)) {
        (Some(x), Some(y)) => x.meaning() == y.meaning(),
        (None, None) => true,
        _ => false,
    }
}

/// The input items of a request.
pub open spec fn input_of(request: JsonView) -> Option<Seq<JsonView>> {
    match request.get("input"@) {
        Some(v) => v.as_items(),
        None => None,
    }
}

/// Whether the input begins with what the exchange took in and gave back.
pub open spec fn continues(
    input: Seq<JsonView>,
    previous_input: Seq<JsonView>,
    output: Seq<JsonView>,
) -> bool {
    &&& previous_input.len() + output.len() <= input.len()
    &&& forall|i: int|
        0 <= i < previous_input.len() ==> request_item_same(#[trigger] previous_input[i], input[i])
    &&& forall|i: int|
        0 <= i < output.len() ==> response_item_same(
            #[trigger] output[i],
            input[previous_input.len() + i],
        )
}

/// What of a request is new after an exchange: the response to continue and the
/// input that follows it, or why the request has to be sent in full.
pub open spec fn increment(previous: ExchangeView, request: JsonView) -> Result<
    (Seq<char>, Seq<JsonView>),
    Seq<char>,
> {
    if previous.response_id.len() == 0 {
        Err("missing_response_id"@)
    } else if !same_properties(previous.full_request, request) {
        Err("request_properties_changed"@)
    } else {
        match (input_of(previous.full_request), input_of(request)) {
            (None, _) => Err("previous_input_not_array"@),
            (_, None) => Err("current_input_not_array"@),
            (Some(before), Some(input)) => {
                let baseline = before.len() + previous.output_items.len();
                if baseline > usize::MAX {
                    Err("baseline_length_overflow"@)
                } else if input.len() < baseline {
                    Err("current_input_shorter_than_baseline"@)
                } else if !continues(input, before, previous.output_items) {
                    Err("context_prefix_changed"@)
                } else {
                    Ok((previous.response_id, input.skip(baseline as int)))
                }
            },
        }
    }
}

/// The type that an item names.
pub fn item_type(item: &Json) -> (r: &str)
    ensures
        r@ == item_type_of(item@),
{
    match item.get_text("type") {
        Some(t) => t,
        None => "unknown",
    }
}

/// A copy of the members without those of the given names.
fn remove_all(members: &Vec<Member>, names: &[&str]) -> (r: Vec<Member>)
    ensures
        members_view(r@) == without_all(members_view(members@), str_texts(names@)),
{
    let mut out = copy_members(members);
    let mut i: usize = 0;
    let ghost all = str_texts(names@);
    assert(all.take(0) =~= Seq::<Seq<char>>::empty());
    while i < names.len()
        invariant
            i <= names.len(),
            all == str_texts(names@),
            members_view(out@) == without_all(members_view(members@), all.take(i as int)),
        decreases names.len() - i,
    {
        assert(all.take(i + 1).drop_last() =~= all.take(i as int));
        out = remove_member(out, names[i]);
        i += 1;
    }
    assert(all.take(i as int) =~= all);
    out
}

/// A copy of the members.
pub(crate) fn copy_members(members: &Vec<Member>) -> (r: Vec<Member>)
    ensures
        members_view(r@) == members_view(members@),
{
    let mut out: Vec<Member> = Vec::new();
    let mut i: usize = 0;
    while i < members.len()
        invariant
            i <= members.len(),
            members_view(out@) =~= members_view(members@).take(i as int),
        decreases members.len() - i,
    {
        let ghost before = out@;
        let member = Member { name: members[i].name.clone(), value: members[i].value.clone() };
        out.push(member);
        assert(members_view(out@) =~= members_view(before).push((member.name@, member.value@)));
        i += 1;
    }
    assert(members_view(members@).take(i as int) =~= members_view(members@));
    out
}

/// The item without its transport fields and the given output-only fields.
pub fn normalized_item(value: &Json, output_only_fields: &[&str]) -> (r: Json)
    ensures
        r@ == normalized(value@, str_texts(output_only_fields@)),
{
    match value {
        Json::Object(members) => {
            let bare = remove_member(
                remove_member(copy_members(members), "internal_chat_message_metadata_passthrough"),
                "metadata",
            );
            proof {
                lemma_without_all_split(
                    members_view(members@),
                    transport_fields(),
                    str_texts(output_only_fields@),
                );
                reveal_with_fuel(without_all, 3);
                assert(transport_fields().drop_last() =~= seq![
                    "internal_chat_message_metadata_passthrough"@,
                ]);
                assert(transport_fields().drop_last().drop_last() =~= Seq::<Seq<char>>::empty());
            }
            Json::Object(remove_all(&bare, output_only_fields))
        },
        _ => value.clone(),
    }
}

proof fn lemma_without_all_split(
    members: Seq<(Seq<char>, JsonView)>,
    first: Seq<Seq<char>>,
    second: Seq<Seq<char>>,
)
    ensures
        without_all(members, first + second) == without_all(without_all(members, first), second),
    decreases second.len(),
{
    if second.len() == 0 {
        assert(first + second =~= first);
    } else {
        assert((first + second).drop_last() =~= first + second.drop_last());
        lemma_without_all_split(members, first, second.drop_last());
    }
}

/// Whether two items are equal but for the given fields and those of the
/// transport.
fn matches_but(a: &Json, b: &Json, output_only_fields: &[&str]) -> (r: bool)
    ensures
        r == same_but(a@, b@, str_texts(output_only_fields@)),
{
    normalized_item(a, output_only_fields).same(&normalized_item(b, output_only_fields))
}

/// Whether an item of a request stands for the same as an item of the request
/// before it. The backend may echo private metadata only once, so it is ignored.
pub fn request_item_matches(previous: &Json, current: &Json) -> (r: bool)
    ensures
        r == request_item_same(previous@, current@),
{
    assert(str_texts(Seq::<&str>::empty()) =~= Seq::<Seq<char>>::empty());
    previous.same(current) || matches_but(previous, current, &[])
}

/// Whether an item of a request stands for the same as an item that the response
/// held. The fields that only responses have are ignored, and a message may have
/// taken the compact form of an input message.
pub fn response_item_matches_request_item(response: &Json, request: &Json) -> (r: bool)
    ensures
        r == response_item_same(response@, request@),
{
    if response.same(request) {
        return true;
    }
    let kind = item_type(response);
    if text_eq(kind, "message") {
        message_item_matches(response, request)
    } else if text_eq(kind, "reasoning") {
        let fields: [&str; 1] = ["status"];
        assert(str_texts(fields@) =~= seq!["status"@]);
        matches_but(response, request, &fields)
    } else if text_eq(kind, "function_call") {
        let fields: [&str; 2] = ["id", "status"];
        assert(str_texts(fields@) =~= seq!["id"@, "status"@]);
        matches_but(response, request, &fields)
    } else {
        request_item_matches(response, request)
    }
}

/// Whether a message of a request stands for the same as a message that the
/// response held.
pub fn message_item_matches(response: &Json, request: &Json) -> (r: bool)
    ensures
        r == message_same(response@, request@),
{
    if !text_eq(item_type(request), "message") || !opt_text_eq(
        response.get_text("role"),
        request.get_text("role"),
    ) {
        return false;
    }
    opt_text_eq(borrowed(&message_text(response)), borrowed(&message_text(request)))
}

/// The text of a message: its content, or the lines of its parts.
pub fn message_text(item: &Json) -> (r: Option<String>)
    ensures
        opt_text(r) == message_text_of(item@),
{
    let content = match item.get("content") {
        Some(content) => content,
        None => {
            return None;
        },
    };
    if let Some(text) = content.as_text() {
        return Some(text.to_owned());
    }
    let parts = match content.as_items() {
        Some(parts) => parts,
        None => {
            return None;
        },
    };
    let ghost all = items_view(parts@);
    let mut lines: Vec<String> = Vec::new();
    let mut i: usize = 0;
    assert(all.take(0) =~= Seq::<JsonView>::empty());
    assert(texts(lines@) =~= Seq::<Seq<char>>::empty());
    while i < parts.len()
        invariant
            i <= parts.len(),
            all == items_view(parts@),
            item@.get("content"@) == Some(JsonView::Array(all)),
            part_texts(all.take(i as int)) == Some(texts(lines@)),
        decreases parts.len() - i,
    {
        assert(all.take(i + 1).drop_last() =~= all.take(i as int));
        let kind = parts[i].get_text("type");
        let accepted = match kind {
            Some(kind) => text_eq(kind, "output_text") || text_eq(kind, "input_text"),
            None => false,
        };
        match parts[i].get_text("text") {
            Some(text) if accepted => {
                let ghost before = texts(lines@);
                let line = text.to_owned();
                lines.push(line);
                assert(texts(lines@) =~= before.push(text@));
            },
            _ => {
                proof {
                    assert(part_texts(all.take(i + 1)) is None);
                    lemma_part_texts_prefix(all, i + 1);
                }
                return None;
            },
        }
        i += 1;
    }
    assert(all.take(i as int) =~= all);
    Some(join(&lines, "\n"))
}

proof fn lemma_part_texts_prefix(parts: Seq<JsonView>, n: int)
    requires
        0 <= n <= parts.len(),
        part_texts(parts.take(n)) is None,
    ensures
        part_texts(parts) is None,
    decreases parts.len() - n,
{
    if n == parts.len() {
        assert(parts.take(n) =~= parts);
    } else {
        assert(parts.take(n + 1).drop_last() =~= parts.take(n));
        lemma_part_texts_prefix(parts, n + 1);
    }
}

/// The members of a request that decide whether a response can be continued.
/// How the stream is delivered does not.
pub fn request_properties(request: &Json) -> (r: Option<Json>)
    ensures
        match r {
            Some(p) => properties_of(request@) == Some(p@),
            None => properties_of(request@) is None,
        },
{
    match request {
        Json::Object(members) => {
            let ignored: [&str; 5] = [
                "input",
                "client_metadata",
                "previous_response_id",
                "type",
                "stream_options",
            ];
            assert(str_texts(ignored@) =~= ignored_properties());
            Some(Json::Object(remove_all(members, &ignored)))
        },
        _ => None,
    }
}

/// What of a request is new after an exchange: the response to continue and the
/// input that follows it, or why the request has to be sent in full.
pub fn incremental_input(previous: &CompletedExchange, current_request: &Json) -> (r: Result<
    (String, Vec<Json>),
    &'static str,
>)
    ensures
        match r {
            Ok((id, input)) => increment(previous@, current_request@) == Ok::<
                (Seq<char>, Seq<JsonView>),
                Seq<char>,
            >((id@, items_view(input@))),
            Err(reason) => increment(previous@, current_request@) == Err::<
                (Seq<char>, Seq<JsonView>),
                Seq<char>,
            >(reason@),
        },
{
    if previous.response_id.as_str().is_empty() {
        return Err("missing_response_id");
    }
    let unchanged = match (
        request_properties(&previous.full_request),
        request_properties(current_request),
    ) {
        (Some(before), Some(now)) => before.same(&now),
        (None, None) => true,
        _ => false,
    };
    if !unchanged {
        return Err("request_properties_changed");
    }
    let previous_input = match previous.full_request.get("input") {
        Some(input) => match input.as_items() {
            Some(items) => items,
            None => {
                return Err("previous_input_not_array");
            },
        },
        None => {
            return Err("previous_input_not_array");
        },
    };
    let current_input = match current_request.get("input") {
        Some(input) => match input.as_items() {
            Some(items) => items,
            None => {
                return Err("current_input_not_array");
            },
        },
        None => {
            return Err("current_input_not_array");
        },
    };
    let ghost before = items_view(previous_input@);
    let ghost output = items_view(previous.output_items@);
    let ghost input = items_view(current_input@);
    let baseline_len: usize = match previous_input.len().checked_add(previous.output_items.len()) {
        Some(n) => n,
        None => {
            return Err("baseline_length_overflow");
        },
    };
    if current_input.len() < baseline_len {
        return Err("current_input_shorter_than_baseline");
    }
    let mut index: usize = 0;
    while index < baseline_len
        invariant
            index <= baseline_len <= current_input.len(),
            baseline_len == previous_input.len() + previous.output_items.len(),
            before == items_view(previous_input@),
            output == items_view(previous.output_items@),
            input == items_view(current_input@),
            previous@.response_id.len() > 0,
            same_properties(previous@.full_request, current_request@),
            input_of(previous@.full_request) == Some(before),
            input_of(current_request@) == Some(input),
            forall|i: int|
                0 <= i < index && i < before.len() ==> request_item_same(
                    #[trigger] before[i],
                    input[i],
                ),
            forall|i: int|
                0 <= i < output.len() && before.len() + i < index ==> response_item_same(
                    #[trigger] output[i],
                    input[before.len() + i],
                ),
        decreases baseline_len - index,
    {
        let current = &current_input[index];
        assert(input[index as int] == current@);
        let matches = if index < previous_input.len() {
            assert(before[index as int] == previous_input@[index as int]@);
            request_item_matches(&previous_input[index], current)
        } else {
            let offset: usize = index - previous_input.len();
            assert(output[offset as int] == previous.output_items@[offset as int]@);
            response_item_matches_request_item(&previous.output_items[offset], current)
        };
        if !matches {
            proof {
                if index < before.len() {
                    assert(!request_item_same(before[index as int], input[index as int]));
                } else {
                    let offset = index - before.len();
                    assert(!response_item_same(output[offset], input[before.len() + offset]));
                }
                assert(!continues(input, before, output));
            }
            return Err("context_prefix_changed");
        }
        index += 1;
    }
    assert(continues(input, before, output));
    Ok((previous.response_id.clone(), copy_items(current_input, baseline_len)))
}

/// The members with a text put in under a name, unless the text is empty.
pub open spec fn with_text(
    members: Seq<(Seq<char>, JsonView)>,
    name: Seq<char>,
    text: Seq<char>,
) -> Seq<(Seq<char>, JsonView)> {
    if text.len() == 0 {
        members
    } else {
        with_member(members, name, JsonView::Text(text))
    }
}

/// The client metadata of a request: what it already holds, the identity of the
/// request and the time at which it starts.
pub open spec fn with_identity(
    members: Seq<(Seq<char>, JsonView)>,
    metadata: RequestMetadataView,
    request_start_ms: nat,
) -> Seq<(Seq<char>, JsonView)> {
    let a = with_text(members, "session_id"@, metadata.session_id);
    let b = with_text(a, "thread_id"@, metadata.conversation_id);
    let c = with_text(b, "turn_id"@, metadata.request_id);
    let d = match metadata.turn_id {
        Some(turn) => with_text(c, "x-grog-turn-index"@, turn),
        None => c,
    };
    with_member(
        d,
        "x-codex-ws-stream-request-start-ms"@,
        JsonView::Text(decimal(request_start_ms)),
    )
}

/// The members of a request, none where the request is null.
pub open spec fn request_members(request: JsonView) -> Seq<(Seq<char>, JsonView)> {
    match request {
        JsonView::Object(members) => members,
        _ => Seq::empty(),
    }
}

/// What of a request is new after the exchange before it, if there was one.
pub open spec fn increment_after(previous: Option<ExchangeView>, request: JsonView) -> Result<
    (Seq<char>, Seq<JsonView>),
    Seq<char>,
> {
    match previous {
        Some(exchange) => increment(exchange, request),
        None => Err("no_previous_response"@),
    }
}

/// The members of the request with the input that is sent, and the response that
/// it continues where it continues one.
pub open spec fn chained_members(
    members: Seq<(Seq<char>, JsonView)>,
    inc: Result<(Seq<char>, Seq<JsonView>), Seq<char>>,
) -> Seq<(Seq<char>, JsonView)> {
    match inc {
        Ok((id, input)) => with_member(
            with_member(members, "input"@, JsonView::Array(input)),
            "previous_response_id"@,
            JsonView::Text(id),
        ),
        Err(_) => without_member(members, "previous_response_id"@),
    }
}

/// The request as it goes over the wire.
pub open spec fn wire_request(
    request: JsonView,
    previous: Option<ExchangeView>,
    metadata: RequestMetadataView,
    request_start_ms: nat,
) -> JsonView {
    let chained = chained_members(request_members(request), increment_after(previous, request));
    let typed = with_member(chained, "type"@, JsonView::Text("response.create"@));
    let client = match lookup(typed, "client_metadata"@) {
        Some(JsonView::Object(members)) => members,
        _ => Seq::empty(),
    };
    JsonView::Object(
        with_member(
            typed,
            "client_metadata"@,
            JsonView::Object(with_identity(client, metadata, request_start_ms)),
        ),
    )
}

/// Puts a text into the metadata, unless it is empty.
pub fn insert_metadata(metadata: &mut Vec<Member>, name: &str, value: &str)
    ensures
        members_view(final(metadata)@) == with_text(
            members_view(old(metadata)@),
            name@,
            value@,
        ),
{
    if !value.is_empty() {
        set_member(metadata, name, Json::Text(value.to_owned()));
    }
}

/// The request as it goes over the wire, and why it is sent in full if it is.
/// The request is an object, or null for one without members.
pub fn prepare_websocket_request(
    full_request: &Json,
    previous: Option<&CompletedExchange>,
    metadata: &WebSocketRequestMetadata,
    request_start_ms: u128,
) -> (r: (Json, Option<&'static str>))
    requires
        full_request is Object || full_request is Null,
    ensures
        r.0@ == wire_request(
            full_request@,
            borrowed_exchange(previous),
            metadata@,
            request_start_ms as nat,
        ),
        opt_str(r.1) == match increment_after(borrowed_exchange(previous), full_request@) {
            Ok(_) => None,
            Err(reason) => Some(reason),
        },
{
    let mut wire = match full_request {
        Json::Object(members) => copy_members(members),
        _ => {
            let none: Vec<Member> = Vec::new();
            assert(members_view(none@) =~= Seq::<(Seq<char>, JsonView)>::empty());
            none
        },
    };
    let incremental = match previous {
        Some(exchange) => incremental_input(exchange, full_request),
        None => Err("no_previous_response"),
    };
    let unchained_reason = match incremental {
        Ok((response_id, input)) => {
            set_member(&mut wire, "input", Json::Array(input));
            set_member(&mut wire, "previous_response_id", Json::Text(response_id));
            None
        },
        Err(reason) => {
            wire = remove_member(wire, "previous_response_id");
            Some(reason)
        },
    };
    set_member(&mut wire, "type", Json::Text("response.create".to_owned()));
    let mut client = match find_member(&wire, "client_metadata") {
        Some(i) => match &wire[i].value {
            Json::Object(members) => copy_members(members),
            _ => Vec::new(),
        },
        None => Vec::new(),
    };
    assert(members_view(Seq::<Member>::empty()) =~= Seq::<(Seq<char>, JsonView)>::empty());
    insert_metadata(&mut client, "session_id", metadata.session_id.as_str());
    insert_metadata(&mut client, "thread_id", metadata.conversation_id.as_str());
    insert_metadata(&mut client, "turn_id", metadata.request_id.as_str());
    if let Some(turn_id) = &metadata.turn_id {
        insert_metadata(&mut client, "x-grog-turn-index", turn_id.as_str());
    }
    set_member(
        &mut client,
        "x-codex-ws-stream-request-start-ms",
        Json::Text(to_decimal(request_start_ms)),
    );
    set_member(&mut wire, "client_metadata", Json::Object(client));
    (Json::Object(wire), unchained_reason)
}

/// The model of a borrowed exchange that may be missing.
pub open spec fn borrowed_exchange(e: Option<&CompletedExchange>) -> Option<ExchangeView> {
    match e {
        Some(x) => Some(x@),
        None => None,
    }
}

/// A request whose input begins with what stands for the input of an exchange and
/// its output, and goes on from there, continues the response with just the rest
/// of its input.
pub proof fn law_continuation_sends_only_new_input(
    previous: ExchangeView,
    request: JsonView,
    before: Seq<JsonView>,
    repeated: Seq<JsonView>,
    rest: Seq<JsonView>,
)
    requires
        previous.response_id.len() > 0,
        same_properties(previous.full_request, request),
        input_of(previous.full_request) == Some(before),
        input_of(request) == Some(repeated + rest),
        repeated.len() == before.len() + previous.output_items.len() <= usize::MAX,
        continues(repeated, before, previous.output_items),
    ensures
        increment(previous, request) == Ok::<(Seq<char>, Seq<JsonView>), Seq<char>>(
            (previous.response_id, rest),
        ),
{
    let input = repeated + rest;
    assert(forall|i: int| 0 <= i < repeated.len() ==> input[i] == repeated[i]);
    assert(continues(input, before, previous.output_items));
    assert(input.skip((before.len() + previous.output_items.len()) as int) =~= rest);
}

/// The input and the output of an exchange stand for themselves.
pub proof fn law_repetition_continues(before: Seq<JsonView>, output: Seq<JsonView>)
    ensures
        continues(before + output, before, output),
{
}

/// A message that a response holds as one piece of text is matched by the compact
/// message of the same role that has this text as its content.
pub proof fn law_compact_message_matches(response: JsonView, request: JsonView, text: Seq<char>)
    requires
        item_type_of(response) == "message"@,
        item_type_of(request) == "message"@,
        response.get_text("role"@) == request.get_text("role"@),
        response.get("content"@) matches Some(JsonView::Array(parts)) && parts.len() == 1
            && parts[0].get_text("type"@) == Some("output_text"@) && parts[0].get_text("text"@)
            == Some(text),
        request.get("content"@) == Some(JsonView::Text(text)),
    ensures
        response_item_same(response, request),
{
    let parts = response.get("content"@)->0->Array_0;
    reveal_with_fuel(part_texts, 2);
    assert(parts.drop_last() =~= Seq::<JsonView>::empty());
    assert(part_texts(parts) == Some(Seq::<Seq<char>>::empty().push(text)));
    let lines = Seq::<Seq<char>>::empty().push(text);
    reveal_with_fuel(joined, 2);
    assert(joined(lines, "\n"@) =~= text);
}

/// What a continuing request sends, put behind the part of its input that stands
/// for the exchange before it, is the whole of its input.
pub proof fn law_increment_loses_no_input(previous: ExchangeView, request: JsonView)
    requires
        increment(previous, request) is Ok,
    ensures
        input_of(previous.full_request) matches Some(before) && input_of(request) matches Some(input)
            && {
            let baseline = (before.len() + previous.output_items.len()) as int;
            &&& continues(input, before, previous.output_items)
            &&& input == input.take(baseline) + increment(previous, request)->Ok_0.1
            &&& increment(previous, request)->Ok_0.0 == previous.response_id
            &&& previous.response_id.len() > 0
        },
{
    let before = input_of(previous.full_request)->0;
    let input = input_of(request)->0;
    let baseline = (before.len() + previous.output_items.len()) as int;
    assert(input =~= input.take(baseline) + input.skip(baseline));
}

/// The request on the wire names a response to continue, and leaves out input,
/// exactly if it is known to continue the exchange before it. Every member but
/// the input, the response to continue, the type and the client metadata is that
/// of the request.
pub proof fn law_wire_request_members(
    request: JsonView,
    previous: Option<ExchangeView>,
    metadata: RequestMetadataView,
    request_start_ms: nat,
    name: Seq<char>,
)
    requires
        request is Object || request is Null,
    ensures
        ({
            let wire = wire_request(request, previous, metadata, request_start_ms);
            let inc = increment_after(previous, request);
            &&& wire.get("previous_response_id"@) == match inc {
                Ok((id, _)) => Some(JsonView::Text(id)),
                Err(_) => None,
            }
            &&& wire.get("input"@) == match inc {
                Ok((_, input)) => Some(JsonView::Array(input)),
                Err(_) => request.get("input"@),
            }
            &&& wire.get("type"@) == Some(JsonView::Text("response.create"@))
            &&& wire.get("client_metadata"@) is Some
            &&& name != "previous_response_id"@ && name != "input"@ && name != "type"@ && name
                != "client_metadata"@ ==> wire.get(name) == request.get(name)
        }),
{
    reveal_strlit("previous_response_id");
    reveal_strlit("input");
    reveal_strlit("type");
    reveal_strlit("client_metadata");
    assert("previous_response_id"@.len() == 20 && "input"@.len() == 5 && "type"@.len() == 4
        && "client_metadata"@.len() == 15);
    lemma_wire_member(request, previous, metadata, request_start_ms, "previous_response_id"@);
    lemma_wire_member(request, previous, metadata, request_start_ms, "input"@);
    lemma_wire_member(request, previous, metadata, request_start_ms, "type"@);
    lemma_wire_member(request, previous, metadata, request_start_ms, "client_metadata"@);
    lemma_wire_member(request, previous, metadata, request_start_ms, name);
}

proof fn lemma_wire_member(
    request: JsonView,
    previous: Option<ExchangeView>,
    metadata: RequestMetadataView,
    request_start_ms: nat,
    name: Seq<char>,
)
    requires
        request is Object || request is Null,
    ensures
        ({
            let wire = wire_request(request, previous, metadata, request_start_ms);
            let inc = increment_after(previous, request);
            if name == "client_metadata"@ {
                wire.get(name) is Some
            } else if name == "type"@ {
                wire.get(name) == Some(JsonView::Text("response.create"@))
            } else if name == "previous_response_id"@ {
                wire.get(name) == match inc {
                    Ok((id, _)) => Some(JsonView::Text(id)),
                    Err(_) => None,
                }
            } else if name == "input"@ && inc is Ok {
                wire.get(name) == Some(JsonView::Array(inc->Ok_0.1))
            } else {
                wire.get(name) == request.get(name)
            }
        }),
{
    let members = request_members(request);
    let inc = increment_after(previous, request);
    let chained = chained_members(members, inc);
    let typed = with_member(chained, "type"@, JsonView::Text("response.create"@));
    let client = match lookup(typed, "client_metadata"@) {
        Some(JsonView::Object(m)) => m,
        _ => Seq::empty(),
    };
    lemma_lookup_with(
        typed,
        "client_metadata"@,
        JsonView::Object(with_identity(client, metadata, request_start_ms)),
        name,
    );
    lemma_lookup_with(chained, "type"@, JsonView::Text("response.create"@), name);
    match inc {
        Ok((id, input)) => {
            let with_input = with_member(members, "input"@, JsonView::Array(input));
            lemma_lookup_with(with_input, "previous_response_id"@, JsonView::Text(id), name);
            lemma_lookup_with(members, "input"@, JsonView::Array(input), name);
        },
        Err(_) => {
            lemma_lookup_without(members, "previous_response_id"@, name);
        },
    }
}

/// Whether two objects have members of the same meaning under each name but the
/// given ones.
pub open spec fn agree_but(a: JsonView, b: JsonView, names: Set<Seq<char>>) -> bool {
    &&& a is Object
    &&& b is Object
    &&& forall|name: Seq<char>|
        !names.contains(name) ==> #[trigger] member_meaning(a, name) == member_meaning(b, name)
}

proof fn lemma_lookup_without_all(
    members: Seq<(Seq<char>, JsonView)>,
    names: Seq<Seq<char>>,
    name: Seq<char>,
)
    ensures
        lookup(without_all(members, names), name) == if names.contains(name) {
            None
        } else {
            lookup(members, name)
        },
    decreases names.len(),
{
    if names.len() > 0 {
        let front = names.drop_last();
        lemma_lookup_without_all(members, front, name);
        lemma_lookup_without(without_all(members, front), names.last(), name);
        if names.contains(name) {
            let i = choose|i: int| 0 <= i < names.len() && names[i] == name;
            if i < front.len() {
                assert(front[i] == name);
            }
        }
        if front.contains(name) {
            let i = choose|i: int| 0 <= i < front.len() && front[i] == name;
            assert(names[i] == name);
        }
        assert(names[names.len() - 1] == names.last());
    }
}

/// What is left of two objects without some names means the same exactly if they
/// agree in all others.
proof fn lemma_left_over(
    a: Seq<(Seq<char>, JsonView)>,
    b: Seq<(Seq<char>, JsonView)>,
    names: Seq<Seq<char>>,
)
    ensures
        JsonView::Object(without_all(a, names)).meaning() == JsonView::Object(
            without_all(b, names),
        ).meaning() <==> agree_but(JsonView::Object(a), JsonView::Object(b), names.to_set()),
{
    let x = JsonView::Object(without_all(a, names));
    let y = JsonView::Object(without_all(b, names));
    let all = names.to_set();
    law_objects_mean_their_members(x, y);
    assert forall|name: Seq<char>| #[trigger]
        member_meaning(x, name) == (if all.contains(name) {
            None
        } else {
            member_meaning(JsonView::Object(a), name)
        }) by {
        lemma_lookup_without_all(a, names, name);
    }
    assert forall|name: Seq<char>| #[trigger]
        member_meaning(y, name) == (if all.contains(name) {
            None
        } else {
            member_meaning(JsonView::Object(b), name)
        }) by {
        lemma_lookup_without_all(b, names, name);
    }
    if agree_but(JsonView::Object(a), JsonView::Object(b), all) {
        assert forall|name: Seq<char>| #[trigger] member_meaning(x, name) == member_meaning(
            y,
            name,
        ) by {
            if !all.contains(name) {
                assert(member_meaning(JsonView::Object(a), name) == member_meaning(
                    JsonView::Object(b),
                    name,
                ));
            }
        }
    }
    if x.meaning() == y.meaning() {
        assert forall|name: Seq<char>| !all.contains(name) implies #[trigger] member_meaning(
            JsonView::Object(a),
            name,
        ) == member_meaning(JsonView::Object(b), name) by {
            assert(member_meaning(x, name) == member_meaning(y, name));
        }
    }
}

/// The names that the transport alone adds to an item.
pub open spec fn private_names() -> Set<Seq<char>> {
    set!["metadata"@, "internal_chat_message_metadata_passthrough"@]
}

proof fn lemma_same_but(a: JsonView, b: JsonView, extra: Seq<Seq<char>>, names: Set<Seq<char>>)
    requires
        names =~= private_names().union(extra.to_set()),
    ensures
        a is Object && b is Object ==> (same_but(a, b, extra) <==> agree_but(a, b, names)),
        !(a is Object) || !(b is Object) ==> (same_but(a, b, extra) <==> a.meaning()
            == b.meaning()),
        a.meaning() == b.meaning() ==> same_but(a, b, extra),
{
    let all = transport_fields() + extra;
    assert(all.to_set() =~= names) by {
        assert(transport_fields()[0] == "internal_chat_message_metadata_passthrough"@);
        assert(transport_fields()[1] == "metadata"@);
        assert forall|name: Seq<char>| #[trigger] all.to_set().contains(name) == names.contains(
            name,
        ) by {
            if all.contains(name) {
                let i = choose|i: int| 0 <= i < all.len() && all[i] == name;
                if i >= 2 {
                    assert(extra[i - 2] == name);
                    assert(extra.to_set().contains(name));
                }
            }
            if extra.to_set().contains(name) {
                let i = choose|i: int| 0 <= i < extra.len() && extra[i] == name;
                assert(all[i + 2] == name);
            }
            assert(all[0] == "internal_chat_message_metadata_passthrough"@);
            assert(all[1] == "metadata"@);
        }
    }
    if a is Object && b is Object {
        lemma_left_over(a->Object_0, b->Object_0, all);
        law_objects_mean_their_members(a, b);
    } else {
        law_values_mean_themselves(a, b);
        law_values_mean_themselves(normalized(a, extra), normalized(b, extra));
    }
}

/// An item of a request stands for one of the request before it exactly if both
/// mean the same, or both are objects that agree in every member but the two that
/// the transport adds. An edited item stands for nothing.
pub proof fn law_request_items_agree(previous: JsonView, current: JsonView)
    ensures
        previous is Object && current is Object ==> (request_item_same(previous, current)
            <==> agree_but(
            previous,
            current,
            set!["metadata"@, "internal_chat_message_metadata_passthrough"@],
        )),
        !(previous is Object) || !(current is Object) ==> (request_item_same(previous, current)
            <==> previous.meaning() == current.meaning()),
{
    let none = Seq::<Seq<char>>::empty();
    assert(private_names() =~= private_names().union(none.to_set()));
    lemma_same_but(previous, current, none, private_names());
}

/// An item that stands for one of a response is equal to it, or depends on what
/// the response held: a message has to be one of the same role and the same text;
/// a reasoning item may lack nothing but its status, and a call of a function
/// nothing but its id and its status; any other item has to be the same. What the
/// transport adds never counts.
pub proof fn law_response_items_agree(response: JsonView, request: JsonView)
    requires
        response is Object,
        request is Object,
    ensures
        response.meaning() == request.meaning() ==> response_item_same(response, request),
        response.get_text("type"@) == Some("message"@) && response.meaning() != request.meaning()
            ==> (response_item_same(response, request) <==> request.get_text("type"@) == Some(
            "message"@,
        ) && response.get_text("role"@) == request.get_text("role"@) && message_text_of(response)
            == message_text_of(request)),
        response.get_text("type"@) == Some("reasoning"@) ==> (response_item_same(response, request)
            <==> agree_but(
            response,
            request,
            set!["metadata"@, "internal_chat_message_metadata_passthrough"@, "status"@],
        )),
        response.get_text("type"@) == Some("function_call"@) ==> (response_item_same(
            response,
            request,
        ) <==> agree_but(
            response,
            request,
            set!["metadata"@, "internal_chat_message_metadata_passthrough"@, "status"@, "id"@],
        )),
        response.get_text("type"@) != Some("message"@) && response.get_text("type"@) != Some(
            "reasoning"@,
        ) && response.get_text("type"@) != Some("function_call"@) ==> (response_item_same(
            response,
            request,
        ) <==> agree_but(
            response,
            request,
            set!["metadata"@, "internal_chat_message_metadata_passthrough"@],
        )),
{
    reveal_strlit("message");
    reveal_strlit("reasoning");
    reveal_strlit("function_call");
    reveal_strlit("unknown");
    assert("message"@.len() == 7 && "reasoning"@.len() == 9 && "function_call"@.len() == 13
        && "unknown"@.len() == 7);
    assert("message"@[0] == 'm' && "unknown"@[0] == 'u');
    let status = seq!["status"@];
    let call = seq!["id"@, "status"@];
    let without_status = set![
        "metadata"@,
        "internal_chat_message_metadata_passthrough"@,
        "status"@,
    ];
    let without_id = set![
        "metadata"@,
        "internal_chat_message_metadata_passthrough"@,
        "status"@,
        "id"@,
    ];
    assert(status[0] == "status"@);
    assert(call[0] == "id"@ && call[1] == "status"@);
    assert(without_status =~= private_names().union(status.to_set()));
    assert(without_id =~= private_names().union(call.to_set()));
    lemma_same_but(response, request, status, without_status);
    lemma_same_but(response, request, call, without_id);
    law_request_items_agree(response, request);
}

/// A message whose content is a text has that text. One whose content is a list
/// of parts has the texts of the parts, in their order and a line break between
/// each two, if every part is an input or output text; any other has none.
pub proof fn law_message_text(item: JsonView, lines: Seq<Seq<char>>)
    ensures
        item.get("content"@) matches Some(JsonView::Text(text)) ==> message_text_of(item) == Some(
            text,
        ),
        item.get("content"@) matches Some(JsonView::Array(parts)) ==> {
            &&& lines.len() == parts.len() && (forall|i: int|
                0 <= i < parts.len() ==> is_text_part(#[trigger] parts[i]) && parts[i].get_text(
                    "text"@,
                ) == Some(lines[i])) ==> message_text_of(item) == Some(joined(lines, "\n"@))
            &&& message_text_of(item) is Some <==> forall|i: int|
                0 <= i < parts.len() ==> is_text_part(#[trigger] parts[i])
        },
        !(item.get("content"@) matches Some(JsonView::Text(_))) && !(item.get(
            "content"@,
        ) matches Some(JsonView::Array(_))) ==> message_text_of(item) is None,
{
    if let Some(JsonView::Array(parts)) = item.get("content"@) {
        lemma_part_texts_are(parts, lines);
    }
}

/// Whether a part of a message is an input or output text.
pub open spec fn is_text_part(part: JsonView) -> bool {
    &&& part.get_text("text"@) is Some
    &&& part.get_text("type"@) == Some("output_text"@) || part.get_text("type"@) == Some(
        "input_text"@,
    )
}

proof fn lemma_part_texts_are(parts: Seq<JsonView>, lines: Seq<Seq<char>>)
    ensures
        part_texts(parts) is Some <==> forall|i: int|
            0 <= i < parts.len() ==> is_text_part(#[trigger] parts[i]),
        lines.len() == parts.len() && (forall|i: int|
            0 <= i < parts.len() ==> is_text_part(#[trigger] parts[i]) && parts[i].get_text(
                "text"@,
            ) == Some(lines[i])) ==> part_texts(parts) == Some(lines),
    decreases parts.len(),
{
    if parts.len() > 0 {
        let front = parts.drop_last();
        assert(parts.last() == parts[parts.len() - 1]);
        assert(forall|i: int| 0 <= i < front.len() ==> #[trigger] parts[i] == front[i]);
        if lines.len() == parts.len() {
            lemma_part_texts_are(front, lines.drop_last());
            assert(lines.drop_last().push(lines.last()) =~= lines);
            assert(lines.last() == lines[parts.len() - 1]);
        } else {
            lemma_part_texts_are(front, lines);
        }
        if forall|i: int| 0 <= i < front.len() ==> is_text_part(#[trigger] front[i]) {
            if is_text_part(parts.last()) {
                assert forall|i: int| 0 <= i < parts.len() implies is_text_part(
                    #[trigger] parts[i],
                ) by {
                    if i < front.len() {
                        assert(front[i] == parts[i]);
                    }
                }
            }
        } else {
            let i = choose|i: int| 0 <= i < front.len() && !is_text_part(#[trigger] front[i]);
            assert(!is_text_part(parts[i]));
        }
    } else {
        assert(lines.len() == 0 ==> lines =~= Seq::<Seq<char>>::empty());
    }
}

/// Two requests agree in their properties exactly if they agree in every member
/// but the input, the client metadata, the response to continue, the type and the
/// options of the stream.
pub proof fn law_properties_agree(a: JsonView, b: JsonView)
    ensures
        a is Object && b is Object ==> (same_properties(a, b) <==> agree_but(
            a,
            b,
            set![
                "input"@,
                "client_metadata"@,
                "previous_response_id"@,
                "type"@,
                "stream_options"@,
            ],
        )),
        a is Object && !(b is Object) ==> !same_properties(a, b),
        !(a is Object) && b is Object ==> !same_properties(a, b),
{
    if a is Object && b is Object {
        let names = set![
            "input"@,
            "client_metadata"@,
            "previous_response_id"@,
            "type"@,
            "stream_options"@,
        ];
        let all = ignored_properties();
        assert(all[0] == "input"@ && all[1] == "client_metadata"@ && all[2]
            == "previous_response_id"@ && all[3] == "type"@ && all[4] == "stream_options"@);
        assert(all.to_set() =~= names);
        lemma_left_over(a->Object_0, b->Object_0, all);
    }
}

/// When a request continues an exchange: it names the response of that exchange,
/// which has an id, and sends what follows the part of its input that stands for
/// the exchange. Up to there nothing has changed: every item of the input before
/// and the item at the same place now agree in each member but the two that the
/// transport adds, and every item of the output is stood for by the item at its
/// place. The properties of the request are those of the request before.
pub proof fn law_continued_history_is_unchanged(
    previous: ExchangeView,
    request: JsonView,
    i: int,
    name: Seq<char>,
)
    requires
        increment(previous, request) is Ok,
    ensures
        ({
            let (id, rest) = increment(previous, request)->Ok_0;
            let before = previous.full_request.get("input"@)->0->Array_0;
            let input = request.get("input"@)->0->Array_0;
            let baseline = before.len() + previous.output_items.len();
            &&& previous.full_request.get("input"@) matches Some(JsonView::Array(_))
            &&& request.get("input"@) matches Some(JsonView::Array(_))
            &&& id == previous.response_id && id.len() > 0
            &&& input.len() == baseline + rest.len()
            &&& 0 <= i < rest.len() ==> rest[i] == input[baseline + i]
            &&& 0 <= i < before.len() && name != "metadata"@ && name
                != "internal_chat_message_metadata_passthrough"@ ==> member_meaning(before[i], name)
                == member_meaning(input[i], name)
            &&& 0 <= i < before.len() && !(before[i] is Object) ==> before[i].meaning()
                == input[i].meaning()
            &&& 0 <= i < before.len() ==> (before[i] is Object <==> input[i] is Object)
            &&& 0 <= i < previous.output_items.len() ==> response_item_same(
                previous.output_items[i],
                input[before.len() + i],
            )
            &&& name != "input"@ && name != "client_metadata"@ && name != "previous_response_id"@
                && name != "type"@ && name != "stream_options"@ ==> member_meaning(
                previous.full_request,
                name,
            ) == member_meaning(request, name)
        }),
{
    let before = previous.full_request.get("input"@)->0->Array_0;
    let input = request.get("input"@)->0->Array_0;
    law_properties_agree(previous.full_request, request);
    if 0 <= i < before.len() {
        law_request_items_agree(before[i], input[i]);
        law_values_mean_themselves(before[i], input[i]);
        assert(request_item_same(before[i], input[i]));
    }
    if 0 <= i < previous.output_items.len() {
        assert(response_item_same(previous.output_items[i], input[before.len() + i]));
    }
}

/// A request in which an item of the input before has been edited goes out in
/// full: no response is continued, the whole input is sent, and the reason is that
/// the context has changed.
pub proof fn law_edited_history_is_sent_in_full(
    previous: ExchangeView,
    request: JsonView,
    before: Seq<JsonView>,
    input: Seq<JsonView>,
    i: int,
    name: Seq<char>,
    metadata: RequestMetadataView,
    request_start_ms: nat,
)
    requires
        previous.response_id.len() > 0,
        agree_but(
            previous.full_request,
            request,
            set![
                "input"@,
                "client_metadata"@,
                "previous_response_id"@,
                "type"@,
                "stream_options"@,
            ],
        ),
        previous.full_request.get("input"@) == Some(JsonView::Array(before)),
        request.get("input"@) == Some(JsonView::Array(input)),
        before.len() + previous.output_items.len() <= input.len() <= usize::MAX,
        0 <= i < before.len(),
        name != "metadata"@,
        name != "internal_chat_message_metadata_passthrough"@,
        member_meaning(before[i], name) != member_meaning(input[i], name),
    ensures
        increment(previous, request) == Err::<(Seq<char>, Seq<JsonView>), Seq<char>>(
            "context_prefix_changed"@,
        ),
        ({
            let wire = wire_request(request, Some(previous), metadata, request_start_ms);
            &&& wire.get("previous_response_id"@) is None
            &&& wire.get("input"@) == Some(JsonView::Array(input))
        }),
{
    law_properties_agree(previous.full_request, request);
    law_request_items_agree(before[i], input[i]);
    law_values_mean_themselves(before[i], input[i]);
    if before[i] is Object && input[i] is Object {
        assert(member_meaning(before[i], name) != member_meaning(input[i], name));
    }
    assert(!request_item_same(before[i], input[i]));
    assert(!continues(input, before, previous.output_items));
    law_wire_request_members(request, Some(previous), metadata, request_start_ms, name);
}

/// A request continues an exchange wherever it may: the response has an id, the
/// properties agree, and the input begins with items that agree with those of the
/// input before and that stand for those of the output.
pub proof fn law_unchanged_history_is_continued(
    previous: ExchangeView,
    request: JsonView,
    before: Seq<JsonView>,
    input: Seq<JsonView>,
)
    requires
        previous.response_id.len() > 0,
        agree_but(
            previous.full_request,
            request,
            set![
                "input"@,
                "client_metadata"@,
                "previous_response_id"@,
                "type"@,
                "stream_options"@,
            ],
        ),
        previous.full_request.get("input"@) == Some(JsonView::Array(before)),
        request.get("input"@) == Some(JsonView::Array(input)),
        before.len() + previous.output_items.len() <= input.len() <= usize::MAX,
        forall|i: int|
            0 <= i < before.len() ==> (#[trigger] before[i]).meaning() == input[i].meaning()
                || agree_but(
                before[i],
                input[i],
                set!["metadata"@, "internal_chat_message_metadata_passthrough"@],
            ),
        forall|i: int|
            0 <= i < previous.output_items.len() ==> response_item_same(
                #[trigger] previous.output_items[i],
                input[before.len() + i],
            ),
    ensures
        increment(previous, request) == Ok::<(Seq<char>, Seq<JsonView>), Seq<char>>(
            (
                previous.response_id,
                input.subrange(
                    (before.len() + previous.output_items.len()) as int,
                    input.len() as int,
                ),
            ),
        ),
{
    law_properties_agree(previous.full_request, request);
    assert forall|i: int| 0 <= i < before.len() implies request_item_same(
        #[trigger] before[i],
        input[i],
    ) by {
        law_request_items_agree(before[i], input[i]);
    }
    let baseline = (before.len() + previous.output_items.len()) as int;
    assert(input.skip(baseline) =~= input.subrange(baseline, input.len() as int));
}

/// Why a request is sent in full: the exchange before has no id to name, the
/// request has other properties, one of the inputs is no list, the input is
/// shorter than what the exchange took in and gave back, or it begins otherwise.
pub proof fn law_reasons_to_send_in_full(previous: ExchangeView, request: JsonView)
    requires
        previous.full_request is Object,
        request is Object,
    ensures
        ({
            let inc = increment(previous, request);
            let agree = agree_but(
                previous.full_request,
                request,
                set![
                    "input"@,
                    "client_metadata"@,
                    "previous_response_id"@,
                    "type"@,
                    "stream_options"@,
                ],
            );
            let before = previous.full_request.get("input"@);
            let input = request.get("input"@);
            if previous.response_id.len() == 0 {
                inc == Err::<(Seq<char>, Seq<JsonView>), Seq<char>>("missing_response_id"@)
            } else if !agree {
                inc == Err::<(Seq<char>, Seq<JsonView>), Seq<char>>("request_properties_changed"@)
            } else if !(before matches Some(JsonView::Array(_))) {
                inc == Err::<(Seq<char>, Seq<JsonView>), Seq<char>>("previous_input_not_array"@)
            } else if !(input matches Some(JsonView::Array(_))) {
                inc == Err::<(Seq<char>, Seq<JsonView>), Seq<char>>("current_input_not_array"@)
            } else if before->0->Array_0.len() + previous.output_items.len() > usize::MAX {
                inc == Err::<(Seq<char>, Seq<JsonView>), Seq<char>>("baseline_length_overflow"@)
            } else if input->0->Array_0.len() < before->0->Array_0.len()
                + previous.output_items.len() {
                inc == Err::<(Seq<char>, Seq<JsonView>), Seq<char>>(
                    "current_input_shorter_than_baseline"@,
                )
            } else {
                inc is Ok || inc == Err::<(Seq<char>, Seq<JsonView>), Seq<char>>(
                    "context_prefix_changed"@,
                )
            }
        }),
{
    law_properties_agree(previous.full_request, request);
}

/// The client metadata on the wire identifies the request: the session, the
/// conversation, the request and the turn, each where it is not empty, and the
/// time at which the request starts. What the request held beside them, or in the
/// place of one that is empty, is kept.
pub proof fn law_wire_request_is_identified(
    request: JsonView,
    previous: Option<ExchangeView>,
    metadata: RequestMetadataView,
    request_start_ms: nat,
    name: Seq<char>,
)
    requires
        request is Object || request is Null,
    ensures
        ({
            let wire = wire_request(request, previous, metadata, request_start_ms);
            let held = request.get_in("client_metadata"@, name);
            wire.get_in("client_metadata"@, name) == if name
                == "x-codex-ws-stream-request-start-ms"@ {
                Some(JsonView::Text(decimal(request_start_ms)))
            } else if name == "session_id"@ && metadata.session_id.len() > 0 {
                Some(JsonView::Text(metadata.session_id))
            } else if name == "thread_id"@ && metadata.conversation_id.len() > 0 {
                Some(JsonView::Text(metadata.conversation_id))
            } else if name == "turn_id"@ && metadata.request_id.len() > 0 {
                Some(JsonView::Text(metadata.request_id))
            } else if name == "x-grog-turn-index"@ && (metadata.turn_id matches Some(turn)
                && turn.len() > 0) {
                Some(JsonView::Text(metadata.turn_id->0))
            } else {
                held
            }
        }),
{
    reveal_strlit("session_id");
    reveal_strlit("thread_id");
    reveal_strlit("turn_id");
    reveal_strlit("x-grog-turn-index");
    reveal_strlit("x-codex-ws-stream-request-start-ms");
    reveal_strlit("client_metadata");
    reveal_strlit("type");
    reveal_strlit("input");
    reveal_strlit("previous_response_id");
    assert("session_id"@.len() == 10 && "thread_id"@.len() == 9 && "turn_id"@.len() == 7
        && "x-grog-turn-index"@.len() == 17 && "x-codex-ws-stream-request-start-ms"@.len() == 34
        && "client_metadata"@.len() == 15 && "type"@.len() == 4 && "input"@.len() == 5
        && "previous_response_id"@.len() == 20);
    let members = request_members(request);
    let inc = increment_after(previous, request);
    let chained = chained_members(members, inc);
    let kind = JsonView::Text("response.create"@);
    let typed = with_member(chained, "type"@, kind);
    let client = match lookup(typed, "client_metadata"@) {
        Some(JsonView::Object(m)) => m,
        _ => Seq::empty(),
    };
    let identified = with_identity(client, metadata, request_start_ms);
    lemma_lookup_with(
        typed,
        "client_metadata"@,
        JsonView::Object(identified),
        "client_metadata"@,
    );
    lemma_lookup_with(chained, "type"@, kind, "client_metadata"@);
    match inc {
        Ok((id, input)) => {
            let with_input = with_member(members, "input"@, JsonView::Array(input));
            lemma_lookup_with(
                members,
                "input"@,
                JsonView::Array(input),
                "client_metadata"@,
            );
            lemma_lookup_with(
                with_input,
                "previous_response_id"@,
                JsonView::Text(id),
                "client_metadata"@,
            );
        },
        Err(_) => {
            lemma_lookup_without(members, "previous_response_id"@, "client_metadata"@);
        },
    }
    let a = with_text(client, "session_id"@, metadata.session_id);
    let b = with_text(a, "thread_id"@, metadata.conversation_id);
    let c = with_text(b, "turn_id"@, metadata.request_id);
    let d = match metadata.turn_id {
        Some(turn) => with_text(c, "x-grog-turn-index"@, turn),
        None => c,
    };
    lemma_lookup_with(client, "session_id"@, JsonView::Text(metadata.session_id), name);
    lemma_lookup_with(a, "thread_id"@, JsonView::Text(metadata.conversation_id), name);
    lemma_lookup_with(b, "turn_id"@, JsonView::Text(metadata.request_id), name);
    if let Some(turn) = metadata.turn_id {
        lemma_lookup_with(c, "x-grog-turn-index"@, JsonView::Text(turn), name);
    }
    lemma_lookup_with(
        d,
        "x-codex-ws-stream-request-start-ms"@,
        JsonView::Text(decimal(request_start_ms)),
        name,
    );
}

/// The first request of a connection is sent in full, and a later one by what the
/// exchange before it leaves.
pub proof fn law_first_request_is_sent_in_full(exchange: ExchangeView, request: JsonView)
    ensures
        increment_after(None, request) == Err::<(Seq<char>, Seq<JsonView>), Seq<char>>(
            "no_previous_response"@,
        ),
        increment_after(Some(exchange), request) == increment(exchange, request),
{
}

} // verus!
