//! Records in JSON text: objects with named fields, or arrays with the fields in
//! order. What is not a field of a record may be anything; it is not looked into.

use vstd::prelude::*;
use vstd::slice::slice_subrange;
use vstd::string::*;
use crate::json::{json_bytes_reading, parse_json_bytes, Json, JsonView};
use crate::text::{opt_text, str_texts, text_eq};

verus! {

/// A JSON value that is looked into only so far. Repeated names are kept.
pub enum Loose {
    /// A value without parts.
    Plain(Json),
    /// The members of an object, in the order in which they are written.
    Named(Vec<LooseMember>),
    /// The items of an array.
    Listed(Vec<Loose>),
    /// A value that is nested too deep, or that cannot be held.
    Unread,
}

/// One member of an object.
pub struct LooseMember {
    pub name: String,
    pub value: Loose,
}

/// The model of [`Loose`].
pub enum LooseView {
    Plain(JsonView),
    Named(Seq<(Seq<char>, LooseView)>),
    Listed(Seq<LooseView>),
    Unread,
}

impl Loose {
    pub open spec fn view(&self) -> LooseView
        decreases self,
    {
        match self {
            Loose::Plain(value) => LooseView::Plain(value@),
            Loose::Named(members) => LooseView::Named(named_view(members@)),
            Loose::Listed(items) => LooseView::Listed(listed_view(items@)),
            Loose::Unread => LooseView::Unread,
        }
    }
}

/// The models of members.
pub open spec fn named_view(members: Seq<LooseMember>) -> Seq<(Seq<char>, LooseView)>
    decreases members,
{
    Seq::new(
        members.len(),
        |i: int|
            if 0 <= i < members.len() {
                (members[i].name@, members[i].value.view())
            } else {
                arbitrary()
            },
    )
}

/// The models of items.
pub open spec fn listed_view(items: Seq<Loose>) -> Seq<LooseView>
    decreases items,
{
    Seq::new(
        items.len(),
        |i: int|
            if 0 <= i < items.len() {
                items[i].view()
            } else {
                arbitrary()
            },
    )
}

/// The model of a borrowed value that may be missing.
pub open spec fn opt_loose(value: Option<&Loose>) -> Option<LooseView> {
    match value {
        Some(v) => Some(v@),
        None => None,
    }
}

/// Where the first JSON value in bytes ends, if they begin with one, as the
/// stream of `serde_json` finds it.
pub uninterp spec fn json_value_end(bytes: Seq<u8>) -> Option<nat>;

/// `serde_json::Deserializer::from_slice`, then `into_iter` for values that are
/// skipped, `next` and `byte_offset`: where the first value ends is named, and is
/// within the bytes. `None` if there is no value.
#[verifier::external_body]
fn value_end(bytes: &[u8]) -> (r: Option<usize>)
    ensures
        match r {
            Some(n) => json_value_end(bytes@) == Some(n as nat) && 0 < n <= bytes@.len(),
            None => json_value_end(bytes@) is None,
        },
{
    let mut values = serde_json::Deserializer::from_slice(bytes)
        .into_iter::<serde::de::IgnoredAny>();
    values.next()?.ok()?;
    Some(values.byte_offset())
}

/// Whether a byte is white space between the parts of a JSON text.
pub open spec fn is_json_space(b: u8) -> bool {
    b == 32 || b == 9 || b == 10 || b == 13
}

/// The bytes without the white space at their start.
pub open spec fn after_space(bytes: Seq<u8>) -> Seq<u8>
    decreases bytes.len(),
{
    if bytes.len() > 0 && is_json_space(bytes[0]) {
        after_space(bytes.drop_first())
    } else {
        bytes
    }
}

proof fn lemma_after_space_len(bytes: Seq<u8>)
    ensures
        after_space(bytes).len() <= bytes.len(),
    decreases bytes.len(),
{
    if bytes.len() > 0 && is_json_space(bytes[0]) {
        lemma_after_space_len(bytes.drop_first());
    }
}

/// The first JSON value in bytes and what follows it.
pub open spec fn first_value(bytes: Seq<u8>) -> Option<(Seq<u8>, Seq<u8>)> {
    match json_value_end(bytes) {
        Some(end) if 0 < end <= bytes.len() => Some(
            (bytes.take(end as int), after_space(bytes.skip(end as int))),
        ),
        _ => None,
    }
}

proof fn lemma_first_value_shrinks(bytes: Seq<u8>)
    ensures
        first_value(bytes) matches Some((value, rest)) ==> rest.len() < bytes.len() && value.len()
            <= bytes.len(),
{
    if let Some(end) = json_value_end(bytes) {
        if 0 < end <= bytes.len() {
            lemma_after_space_len(bytes.skip(end as int));
        }
    }
}

/// Whether bytes begin with a mark and nothing but white space follows it.
pub open spec fn ends_with_mark(bytes: Seq<u8>, mark: u8) -> bool {
    bytes.len() > 0 && bytes[0] == mark && after_space(bytes.skip(1)).len() == 0
}

/// The first member of an object in bytes, and what follows it: a name, a colon
/// and a value.
pub open spec fn first_member(bytes: Seq<u8>) -> Option<((Seq<char>, Seq<u8>), Seq<u8>)> {
    match first_value(bytes) {
        Some((key, colon)) => match json_bytes_reading(key) {
            Some(JsonView::Text(name)) if colon.len() > 0 && colon[0] == 58 => match first_value(
                colon.skip(1),
            ) {
                Some((value, rest)) => Some(((name, value), rest)),
                None => None,
            },
            _ => None,
        },
        None => None,
    }
}

proof fn lemma_first_member_shrinks(bytes: Seq<u8>)
    ensures
        first_member(bytes) matches Some((member, rest)) ==> rest.len() < bytes.len(),
{
    lemma_first_value_shrinks(bytes);
    if let Some((key, colon)) = first_value(bytes) {
        if colon.len() > 0 {
            lemma_first_value_shrinks(colon.skip(1));
        }
    }
}

/// The members of an object from the first one on, up to the closing brace, after
/// which nothing may follow.
pub open spec fn members_from(bytes: Seq<u8>) -> Option<Seq<(Seq<char>, Seq<u8>)>>
    decreases bytes.len(),
    via members_from_decreases
{
    match first_member(bytes) {
        Some((member, rest)) => if rest.len() > 0 && rest[0] == 44 {
            match members_from(rest.skip(1)) {
                Some(more) => Some(seq![member] + more),
                None => None,
            }
        } else if ends_with_mark(rest, 125) {
            Some(seq![member])
        } else {
            None
        },
        None => None,
    }
}

#[via_fn]
proof fn members_from_decreases(bytes: Seq<u8>) {
    lemma_first_member_shrinks(bytes);
}

/// The items of an array from the first one on, up to the closing bracket, after
/// which nothing may follow.
pub open spec fn items_from(bytes: Seq<u8>) -> Option<Seq<Seq<u8>>>
    decreases bytes.len(),
    via items_from_decreases
{
    match first_value(bytes) {
        Some((item, rest)) => if rest.len() > 0 && rest[0] == 44 {
            match items_from(rest.skip(1)) {
                Some(more) => Some(seq![item] + more),
                None => None,
            }
        } else if ends_with_mark(rest, 93) {
            Some(seq![item])
        } else {
            None
        },
        None => None,
    }
}

#[via_fn]
proof fn items_from_decreases(bytes: Seq<u8>) {
    lemma_first_value_shrinks(bytes);
}

/// The members of the object that bytes are, if they are one.
pub open spec fn members_of(bytes: Seq<u8>) -> Option<Seq<(Seq<char>, Seq<u8>)>> {
    let text = after_space(bytes);
    if text.len() == 0 || text[0] != 123 {
        None
    } else if ends_with_mark(after_space(text.skip(1)), 125) {
        Some(Seq::empty())
    } else {
        members_from(text.skip(1))
    }
}

/// The items of the array that bytes are, if they are one.
pub open spec fn items_of(bytes: Seq<u8>) -> Option<Seq<Seq<u8>>> {
    let text = after_space(bytes);
    if text.len() == 0 || text[0] != 91 {
        None
    } else if ends_with_mark(after_space(text.skip(1)), 93) {
        Some(Seq::empty())
    } else {
        items_from(text.skip(1))
    }
}

/// The JSON value that bytes are, looked into for so many levels.
pub open spec fn loose_of(bytes: Seq<u8>, levels: nat) -> LooseView
    decreases levels,
{
    let text = after_space(bytes);
    if text.len() > 0 && (text[0] == 123 || text[0] == 91) {
        match (members_of(bytes), items_of(bytes)) {
            (Some(members), _) if levels > 0 => LooseView::Named(
                members.map_values(
                    |m: (Seq<char>, Seq<u8>)| (m.0, loose_of(m.1, (levels - 1) as nat)),
                ),
            ),
            (None, Some(items)) if levels > 0 => LooseView::Listed(
                items.map_values(|item: Seq<u8>| loose_of(item, (levels - 1) as nat)),
            ),
            _ => LooseView::Unread,
        }
    } else {
        match json_bytes_reading(bytes) {
            Some(value) => LooseView::Plain(value),
            None => LooseView::Unread,
        }
    }
}

/// A JSON value, looked into for so many levels.
pub open spec fn loosened(value: JsonView, levels: nat) -> LooseView
    decreases levels,
{
    match value {
        JsonView::Object(members) => if levels > 0 {
            LooseView::Named(
                members.map_values(
                    |m: (Seq<char>, JsonView)| (m.0, loosened(m.1, (levels - 1) as nat)),
                ),
            )
        } else {
            LooseView::Unread
        },
        JsonView::Array(items) => if levels > 0 {
            LooseView::Listed(items.map_values(|item: JsonView| loosened(item, (levels - 1) as nat)))
        } else {
            LooseView::Unread
        },
        _ => LooseView::Plain(value),
    }
}

/// The position of the first byte from `from` on that is no white space.
fn skip_space(bytes: &[u8], from: usize) -> (r: usize)
    requires
        from <= bytes@.len(),
    ensures
        from <= r <= bytes@.len(),
        bytes@.skip(r as int) == after_space(bytes@.skip(from as int)),
{
    let mut i: usize = from;
    while i < bytes.len() && (bytes[i] == 32 || bytes[i] == 9 || bytes[i] == 10 || bytes[i] == 13)
        invariant
            from <= i <= bytes@.len(),
            after_space(bytes@.skip(i as int)) == after_space(bytes@.skip(from as int)),
        decreases bytes@.len() - i,
    {
        assert(bytes@.skip(i as int)[0] == bytes@[i as int]);
        assert(bytes@.skip(i as int).drop_first() =~= bytes@.skip(i + 1));
        i += 1;
    }
    if i < bytes.len() {
        assert(bytes@.skip(i as int)[0] == bytes@[i as int]);
    }
    i
}

/// Whether from a position on there is a mark and then only white space.
fn ends_at(bytes: &[u8], at: usize, mark: u8) -> (r: bool)
    requires
        at <= bytes@.len(),
    ensures
        r == ends_with_mark(bytes@.skip(at as int), mark),
{
    if at >= bytes.len() {
        return false;
    }
    assert(bytes@.skip(at as int)[0] == bytes@[at as int]);
    assert(bytes@.skip(at as int).skip(1) =~= bytes@.skip(at + 1));
    bytes[at] == mark && skip_space(bytes, at + 1) == bytes.len()
}

/// The first value from a position on: where it ends, and where what follows it
/// begins.
fn split_value(bytes: &[u8], from: usize) -> (r: Option<(usize, usize)>)
    requires
        from <= bytes@.len(),
    ensures
        match r {
            Some((end, next)) => from < end <= next <= bytes@.len() && first_value(
                bytes@.skip(from as int),
            ) == Some((bytes@.subrange(from as int, end as int), bytes@.skip(next as int))),
            None => first_value(bytes@.skip(from as int)) is None,
        },
{
    let rest = slice_subrange(bytes, from, bytes.len());
    assert(rest@ =~= bytes@.skip(from as int));
    match value_end(rest) {
        Some(length) => {
            let end: usize = from + length;
            assert(rest@.take(length as int) =~= bytes@.subrange(from as int, end as int));
            assert(rest@.skip(length as int) =~= bytes@.skip(end as int));
            Some((end, skip_space(bytes, end)))
        },
        None => None,
    }
}

/// The members of the object that bytes are, if they are one: the name of each,
/// and the bytes of its value.
fn split_members(bytes: &[u8]) -> (r: Option<Vec<(String, &[u8])>>)
    ensures
        match r {
            Some(members) => members_of(bytes@) == Some(
                members@.map_values(|m: (String, &[u8])| (m.0@, m.1@)),
            ),
            None => members_of(bytes@) is None,
        },
{
    let start: usize = skip_space(bytes, 0);
    assert(bytes@.skip(0) =~= bytes@);
    let mut out: Vec<(String, &[u8])> = Vec::new();
    let ghost views = |v: Seq<(String, &[u8])>| v.map_values(|m: (String, &[u8])| (m.0@, m.1@));
    if start >= bytes.len() {
        return None;
    }
    assert(bytes@.skip(start as int)[0] == bytes@[start as int]);
    assert(bytes@.skip(start as int).skip(1) =~= bytes@.skip(start + 1));
    if bytes[start] != 123 {
        return None;
    }
    let inside: usize = skip_space(bytes, start + 1);
    assert(views(out@) =~= Seq::<(Seq<char>, Seq<u8>)>::empty());
    if ends_at(bytes, inside, 125) {
        return Some(out);
    }
    let mut at: usize = start + 1;
    let ghost whole = members_from(bytes@.skip(at as int));
    assert(whole matches Some(all) ==> views(out@) + all =~= all);
    loop
        invariant
            at <= bytes@.len(),
            whole == members_of(bytes@),
            views == |v: Seq<(String, &[u8])>| v.map_values(|m: (String, &[u8])| (m.0@, m.1@)),
            whole == match members_from(bytes@.skip(at as int)) {
                Some(more) => Some(views(out@) + more),
                None => None,
            },
        decreases bytes@.len() - at,
    {
        let ghost here = bytes@.skip(at as int);
        let (key_end, colon) = match split_value(bytes, at) {
            Some(found) => found,
            None => {
                return None;
            },
        };
        let name = match parse_json_bytes(slice_subrange(bytes, at, key_end)) {
            Some(Json::Text(name)) => name,
            _ => {
                return None;
            },
        };
        if colon >= bytes.len() {
            return None;
        }
        assert(bytes@.skip(colon as int)[0] == bytes@[colon as int]);
        assert(bytes@.skip(colon as int).skip(1) =~= bytes@.skip(colon + 1));
        if bytes[colon] != 58 {
            return None;
        }
        let (value_stop, next) = match split_value(bytes, colon + 1) {
            Some(found) => found,
            None => {
                return None;
            },
        };
        let value = slice_subrange(bytes, colon + 1, value_stop);
        let ghost before = out@;
        let ghost member = (name@, value@);
        assert(first_member(here) == Some((member, bytes@.skip(next as int))));
        out.push((name, value));
        assert(views(out@) =~= views(before).push(member));
        if next < bytes.len() && bytes[next] == 44 {
            proof {
                assert(bytes@.skip(next as int)[0] == bytes@[next as int]);
                assert(bytes@.skip(next as int).skip(1) =~= bytes@.skip(next + 1));
                if let Some(more) = members_from(bytes@.skip(next + 1)) {
                    assert(views(before) + (seq![member] + more) =~= views(out@) + more);
                }
            }
            at = next + 1;
        } else {
            proof {
                if next < bytes@.len() {
                    assert(bytes@.skip(next as int)[0] == bytes@[next as int]);
                }
                assert(views(before) + seq![member] =~= views(out@));
            }
            if ends_at(bytes, next, 125) {
                return Some(out);
            }
            return None;
        }
    }
}

/// The items of the array that bytes are, if they are one: the bytes of each.
fn split_items(bytes: &[u8]) -> (r: Option<Vec<&[u8]>>)
    ensures
        match r {
            Some(items) => items_of(bytes@) == Some(items@.map_values(|item: &[u8]| item@)),
            None => items_of(bytes@) is None,
        },
{
    let start: usize = skip_space(bytes, 0);
    assert(bytes@.skip(0) =~= bytes@);
    let mut out: Vec<&[u8]> = Vec::new();
    let ghost views = |v: Seq<&[u8]>| v.map_values(|item: &[u8]| item@);
    if start >= bytes.len() {
        return None;
    }
    assert(bytes@.skip(start as int)[0] == bytes@[start as int]);
    assert(bytes@.skip(start as int).skip(1) =~= bytes@.skip(start + 1));
    if bytes[start] != 91 {
        return None;
    }
    let inside: usize = skip_space(bytes, start + 1);
    assert(views(out@) =~= Seq::<Seq<u8>>::empty());
    if ends_at(bytes, inside, 93) {
        return Some(out);
    }
    let mut at: usize = start + 1;
    let ghost whole = items_from(bytes@.skip(at as int));
    assert(whole matches Some(all) ==> views(out@) + all =~= all);
    loop
        invariant
            at <= bytes@.len(),
            whole == items_of(bytes@),
            views == |v: Seq<&[u8]>| v.map_values(|item: &[u8]| item@),
            whole == match items_from(bytes@.skip(at as int)) {
                Some(more) => Some(views(out@) + more),
                None => None,
            },
        decreases bytes@.len() - at,
    {
        let (end, next) = match split_value(bytes, at) {
            Some(found) => found,
            None => {
                return None;
            },
        };
        let item = slice_subrange(bytes, at, end);
        let ghost before = out@;
        out.push(item);
        assert(views(out@) =~= views(before).push(item@));
        if next < bytes.len() && bytes[next] == 44 {
            proof {
                assert(bytes@.skip(next as int)[0] == bytes@[next as int]);
                assert(bytes@.skip(next as int).skip(1) =~= bytes@.skip(next + 1));
                if let Some(more) = items_from(bytes@.skip(next + 1)) {
                    assert(views(before) + (seq![item@] + more) =~= views(out@) + more);
                }
            }
            at = next + 1;
        } else {
            proof {
                if next < bytes@.len() {
                    assert(bytes@.skip(next as int)[0] == bytes@[next as int]);
                }
                assert(views(before) + seq![item@] =~= views(out@));
            }
            if ends_at(bytes, next, 93) {
                return Some(out);
            }
            return None;
        }
    }
}

/// Reads the JSON value that bytes are, looking into it for so many levels.
pub fn read_loose(bytes: &[u8], levels: u8) -> (r: Loose)
    ensures
        r@ == loose_of(bytes@, levels as nat),
    decreases levels,
{
    let start: usize = skip_space(bytes, 0);
    assert(bytes@.skip(0) =~= bytes@);
    if start < bytes.len() {
        assert(bytes@.skip(start as int)[0] == bytes@[start as int]);
    }
    if start >= bytes.len() || (bytes[start] != 123 && bytes[start] != 91) {
        return match parse_json_bytes(bytes) {
            Some(value) => Loose::Plain(value),
            None => Loose::Unread,
        };
    }
    if levels == 0 {
        return Loose::Unread;
    }
    if let Some(members) = split_members(bytes) {
        let ghost all = members_of(bytes@)->0;
        let mut out: Vec<LooseMember> = Vec::new();
        let mut i: usize = 0;
        while i < members.len()
            invariant
                i <= members.len(),
                levels > 0,
                all == members@.map_values(|m: (String, &[u8])| (m.0@, m.1@)),
                named_view(out@) =~= all.take(i as int).map_values(
                    |m: (Seq<char>, Seq<u8>)| (m.0, loose_of(m.1, (levels - 1) as nat)),
                ),
            decreases members.len() - i,
        {
            let ghost before = named_view(out@);
            let value = read_loose(members[i].1, levels - 1);
            let member = LooseMember { name: members[i].0.clone(), value };
            assert(all[i as int] == (members@[i as int].0@, members@[i as int].1@));
            out.push(member);
            assert(named_view(out@) =~= before.push((member.name@, member.value@)));
            i += 1;
        }
        assert(all.take(i as int) =~= all);
        assert(named_view(out@) =~= loose_of(bytes@, levels as nat)->Named_0);
        return Loose::Named(out);
    }
    if let Some(items) = split_items(bytes) {
        let ghost all = items_of(bytes@)->0;
        let mut out: Vec<Loose> = Vec::new();
        let mut i: usize = 0;
        while i < items.len()
            invariant
                i <= items.len(),
                levels > 0,
                all == items@.map_values(|item: &[u8]| item@),
                listed_view(out@) =~= all.take(i as int).map_values(
                    |item: Seq<u8>| loose_of(item, (levels - 1) as nat),
                ),
            decreases items.len() - i,
        {
            let ghost before = listed_view(out@);
            let value = read_loose(items[i], levels - 1);
            assert(all[i as int] == items@[i as int]@);
            out.push(value);
            assert(listed_view(out@) =~= before.push(value@));
            i += 1;
        }
        assert(all.take(i as int) =~= all);
        assert(listed_view(out@) =~= loose_of(bytes@, levels as nat)->Listed_0);
        return Loose::Listed(out);
    }
    Loose::Unread
}

/// Whether one of the names stands twice.
pub open spec fn repeats_any(members: Seq<(Seq<char>, LooseView)>, names: Seq<Seq<char>>) -> bool {
    exists|i: int, j: int|
        0 <= i < j < members.len() && (#[trigger] members[i]).0 == (#[trigger] members[j]).0
            && names.contains(members[i].0)
}

/// Whether a value can be a record of these fields: an object in which none of
/// them stands twice, or an array of the fields in order, where the last ones may
/// be left out.
pub open spec fn is_record(value: LooseView, names: Seq<Seq<char>>) -> bool {
    match value {
        LooseView::Named(members) => !repeats_any(members, names),
        LooseView::Listed(items) => items.len() <= names.len(),
        _ => false,
    }
}

/// A field of a record, by its name in an object and its position in an array.
pub open spec fn field(value: LooseView, name: Seq<char>, position: int) -> Option<LooseView> {
    match value {
        LooseView::Named(members) => crate::ordered::value_of(members, name),
        LooseView::Listed(items) => if 0 <= position < items.len() {
            Some(items[position])
        } else {
            None
        },
        _ => None,
    }
}

/// Whether a field that may be missing is missing, null or a text.
pub open spec fn is_opt_text(value: Option<LooseView>) -> bool {
    match value {
        None
        | Some(LooseView::Plain(JsonView::Null))
        | Some(LooseView::Plain(JsonView::Text(_))) => true,
        _ => false,
    }
}

/// The text of a field that may be missing.
pub open spec fn field_text(value: Option<LooseView>) -> Option<Seq<char>> {
    match value {
        Some(LooseView::Plain(JsonView::Text(t))) => Some(t),
        _ => None,
    }
}

/// A field of a record.
pub fn find_field<'a>(value: &'a Loose, name: &str, position: usize) -> (r: Option<&'a Loose>)
    ensures
        opt_loose(r) == field(value@, name@, position as int),
{
    match value {
        Loose::Named(members) => {
            let ghost all = named_view(members@);
            let mut i: usize = 0;
            assert(all.skip(0) =~= all);
            while i < members.len()
                invariant
                    i <= members.len(),
                    all == named_view(members@),
                    value@ == LooseView::Named(all),
                    crate::ordered::value_of(all, name@) == crate::ordered::value_of(
                        all.skip(i as int),
                        name@,
                    ),
                decreases members.len() - i,
            {
                assert(all.skip(i as int)[0] == (members@[i as int].name@, members@[i as int].value@));
                assert(all.skip(i as int).drop_first() =~= all.skip(i + 1));
                if text_eq(members[i].name.as_str(), name) {
                    return Some(&members[i].value);
                }
                i += 1;
            }
            None
        },
        Loose::Listed(items) => if position < items.len() {
            Some(&items[position])
        } else {
            None
        },
        _ => None,
    }
}

/// The text of a field that may be missing; an error if it is something else.
pub fn read_text(value: Option<&Loose>) -> (r: Result<Option<String>, ()>)
    ensures
        match r {
            Ok(text) => is_opt_text(opt_loose(value)) && opt_text(text) == field_text(
                opt_loose(value),
            ),
            Err(_) => !is_opt_text(opt_loose(value)),
        },
{
    match value {
        None => Ok(None),
        Some(Loose::Plain(Json::Null)) => Ok(None),
        Some(Loose::Plain(Json::Text(t))) => Ok(Some(t.clone())),
        Some(_) => Err(()),
    }
}

fn is_named(name: &str, names: &[&str]) -> (r: bool)
    ensures
        r == str_texts(names@).contains(name@),
{
    let ghost all = str_texts(names@);
    let mut i: usize = 0;
    while i < names.len()
        invariant
            i <= names.len(),
            all == str_texts(names@),
            forall|j: int| 0 <= j < i ==> #[trigger] all[j] != name@,
        decreases names.len() - i,
    {
        assert(all[i as int] == names@[i as int]@);
        if text_eq(names[i], name) {
            return true;
        }
        i += 1;
    }
    false
}

/// Whether a value can be a record of these fields.
pub fn is_record_of(value: &Loose, names: &[&str]) -> (r: bool)
    ensures
        r == is_record(value@, str_texts(names@)),
{
    match value {
        Loose::Named(members) => {
            let ghost all = named_view(members@);
            let ghost known = str_texts(names@);
            let mut j: usize = 0;
            while j < members.len()
                invariant
                    j <= members.len(),
                    all == named_view(members@),
                    known == str_texts(names@),
                    value@ == LooseView::Named(all),
                    forall|a: int, b: int|
                        0 <= a < b < j && (#[trigger] all[a]).0 == (#[trigger] all[b]).0
                            ==> !known.contains(all[a].0),
                decreases members.len() - j,
            {
                assert(all[j as int].0 == members@[j as int].name@);
                if is_named(members[j].name.as_str(), names) {
                    let mut i: usize = 0;
                    while i < j
                        invariant
                            i <= j < members.len(),
                            all == named_view(members@),
                            known == str_texts(names@),
                            value@ == LooseView::Named(all),
                            all[j as int].0 == members@[j as int].name@,
                            known.contains(all[j as int].0),
                            forall|a: int| 0 <= a < i ==> (#[trigger] all[a]).0 != all[j as int].0,
                        decreases j - i,
                    {
                        assert(all[i as int].0 == members@[i as int].name@);
                        if text_eq(members[i].name.as_str(), members[j].name.as_str()) {
                            assert(all[i as int].0 == all[j as int].0);
                            assert(repeats_any(all, known));
                            return false;
                        }
                        i += 1;
                    }
                }
                j += 1;
            }
            true
        },
        Loose::Listed(items) => items.len() <= names.len(),
        _ => false,
    }
}

/// A record of an object has under each field the value of the first member of
/// that name, and it is no record if one of its fields stands twice; other names
/// may. One of an array has its fields in order, and no more of them than there
/// are.
pub proof fn law_fields_by_name_or_place(
    members: Seq<(Seq<char>, LooseView)>,
    items: Seq<LooseView>,
    names: Seq<Seq<char>>,
    i: int,
    j: int,
    place: int,
)
    ensures
        0 <= i < j < members.len() && members[i].0 == members[j].0 && names.contains(members[i].0)
            ==> !is_record(LooseView::Named(members), names),
        (forall|a: int, b: int|
            0 <= a < b < members.len() && (#[trigger] members[a]).0 == (#[trigger] members[b]).0
                ==> !names.contains(members[a].0)) ==> is_record(LooseView::Named(members), names),
        0 <= i < members.len() && (forall|k: int|
            0 <= k < i ==> (#[trigger] members[k]).0 != members[i].0) ==> field(
            LooseView::Named(members),
            members[i].0,
            place,
        ) == Some(members[i].1),
        is_record(LooseView::Listed(items), names) <==> items.len() <= names.len(),
        0 <= place < items.len() ==> field(LooseView::Listed(items), Seq::empty(), place) == Some(
            items[place],
        ),
        place >= items.len() ==> field(LooseView::Listed(items), Seq::empty(), place) is None,
{
    if 0 <= i < members.len() && (forall|k: int|
        0 <= k < i ==> (#[trigger] members[k]).0 != members[i].0) {
        lemma_first_of_name(members, i);
    }
    if 0 <= i < j < members.len() && members[i].0 == members[j].0 && names.contains(members[i].0) {
        assert(repeats_any(members, names));
    }
}

proof fn lemma_first_of_name(members: Seq<(Seq<char>, LooseView)>, i: int)
    requires
        0 <= i < members.len(),
        forall|k: int| 0 <= k < i ==> (#[trigger] members[k]).0 != members[i].0,
    ensures
        crate::ordered::value_of(members, members[i].0) == Some(members[i].1),
    decreases members.len(),
{
    if i > 0 {
        let rest = members.drop_first();
        assert(members[0].0 != members[i].0);
        assert forall|k: int| 0 <= k < i - 1 implies (#[trigger] rest[k]).0 != rest[i - 1].0 by {
            assert(rest[k] == members[k + 1]);
            assert(members[k + 1].0 != members[i].0);
        }
        lemma_first_of_name(rest, i - 1);
    }
}

/// The members of an object are read in their order, one by one: what stands
/// before a comma is the first, and what follows it holds the others.
pub proof fn law_members_are_read_in_order(
    bytes: Seq<u8>,
    member: (Seq<char>, Seq<u8>),
    rest: Seq<u8>,
)
    requires
        first_member(bytes) == Some((member, rest)),
    ensures
        rest.len() > 0 && rest[0] == 0x2c ==> (match members_from(rest.skip(1)) {
            Some(more) => members_from(bytes) matches Some(all) && all.len() == more.len() + 1
                && all[0] == member && all.skip(1) == more,
            None => members_from(bytes) is None,
        }),
        rest.len() == 1 && rest[0] == 0x7d ==> members_from(bytes) == Some(seq![member]),
        rest.len() == 0 ==> members_from(bytes) is None,
        rest.len() > 0 && rest[0] != 0x2c && rest[0] != 0x7d ==> members_from(bytes) is None,
{
    if rest.len() > 0 && rest[0] == 0x2c {
        if let Some(more) = members_from(rest.skip(1)) {
            assert((seq![member] + more).skip(1) =~= more);
        }
    }
}

/// White space before a value makes no difference to what is read from it.
pub proof fn law_space_before_a_value(b: u8, bytes: Seq<u8>)
    requires
        b == 0x20 || b == 0x09 || b == 0x0a || b == 0x0d,
    ensures
        after_space(seq![b] + bytes) == after_space(bytes),
        members_of(seq![b] + bytes) == members_of(bytes),
        items_of(seq![b] + bytes) == items_of(bytes),
{
    assert((seq![b] + bytes).drop_first() =~= bytes);
    assert((seq![b] + bytes)[0] == b);
}

/// White space ends at the first byte that is none.
pub proof fn law_space_ends(bytes: Seq<u8>)
    requires
        bytes.len() > 0,
        bytes[0] != 0x20,
        bytes[0] != 0x09,
        bytes[0] != 0x0a,
        bytes[0] != 0x0d,
    ensures
        after_space(bytes) == bytes,
{
}

/// The items of an array are read in their order, one by one: what stands before a
/// comma is the first, and what follows it holds the others.
pub proof fn law_items_are_read_in_order(bytes: Seq<u8>, item: Seq<u8>, rest: Seq<u8>)
    requires
        first_value(bytes) == Some((item, rest)),
    ensures
        rest.len() > 0 && rest[0] == 0x2c ==> (match items_from(rest.skip(1)) {
            Some(more) => items_from(bytes) matches Some(all) && all.len() == more.len() + 1
                && all[0] == item && all.skip(1) == more,
            None => items_from(bytes) is None,
        }),
        rest.len() == 1 && rest[0] == 0x5d ==> items_from(bytes) == Some(seq![item]),
        rest.len() == 0 ==> items_from(bytes) is None,
        rest.len() > 0 && rest[0] != 0x2c && rest[0] != 0x5d ==> items_from(bytes) is None,
{
    if rest.len() > 0 && rest[0] == 0x2c {
        if let Some(more) = items_from(rest.skip(1)) {
            assert((seq![item] + more).skip(1) =~= more);
        }
    }
}

/// An object is read as its members and an array as its items, each in its place
/// and as deep as there are levels; whatever begins otherwise is read as a value.
pub proof fn law_objects_and_arrays_are_read(
    bytes: Seq<u8>,
    levels: nat,
    members: Seq<(Seq<char>, Seq<u8>)>,
    items: Seq<Seq<u8>>,
    i: int,
)
    requires
        levels > 0,
        bytes.len() > 0,
    ensures
        bytes[0] == 0x7b && members_of(bytes) == Some(members) ==> (loose_of(
            bytes,
            levels,
        ) matches LooseView::Named(read) && read.len() == members.len() && (0 <= i < members.len()
            ==> read[i] == (members[i].0, loose_of(members[i].1, (levels - 1) as nat)))),
        bytes[0] == 0x5b && items_of(bytes) == Some(items) ==> (loose_of(
            bytes,
            levels,
        ) matches LooseView::Listed(read) && read.len() == items.len() && (0 <= i < items.len()
            ==> read[i] == loose_of(items[i], (levels - 1) as nat))),
        bytes[0] == 0x7b && members_of(bytes) is None ==> loose_of(bytes, levels)
            == LooseView::Unread,
        bytes[0] == 0x5b && items_of(bytes) is None ==> loose_of(bytes, levels)
            == LooseView::Unread,
        bytes[0] != 0x7b && bytes[0] != 0x5b && !(bytes[0] == 0x20 || bytes[0] == 0x09 || bytes[0]
            == 0x0a || bytes[0] == 0x0d) ==> loose_of(bytes, levels) == (match json_bytes_reading(
            bytes,
        ) {
            Some(value) => LooseView::Plain(value),
            None => LooseView::Unread,
        }),
{
}

/// A field that may hold a text may also be missing or null, and nothing else; it
/// is the text that it holds.
pub proof fn law_optional_text_fields(value: LooseView, text: Seq<char>)
    ensures
        is_opt_text(None),
        is_opt_text(Some(value)) <==> (value == LooseView::Plain(JsonView::Null) || (value
            matches LooseView::Plain(plain) && plain is Text)),
        field_text(Some(LooseView::Plain(JsonView::Text(text)))) == Some(text),
        field_text(None) is None,
        field_text(Some(LooseView::Plain(JsonView::Null))) is None,
{
}

/// An object begins with a brace and an array with a bracket, and one that is
/// closed at once is empty; nothing that begins otherwise is either.
pub proof fn law_brackets(bytes: Seq<u8>)
    requires
        bytes.len() > 0,
        bytes[0] != 0x20,
        bytes[0] != 0x09,
        bytes[0] != 0x0a,
        bytes[0] != 0x0d,
    ensures
        bytes[0] != 0x7b ==> members_of(bytes) is None,
        bytes[0] != 0x5b ==> items_of(bytes) is None,
        bytes.len() == 2 && bytes[0] == 0x7b && bytes[1] == 0x7d ==> members_of(bytes) == Some(
            Seq::<(Seq<char>, Seq<u8>)>::empty(),
        ),
        bytes.len() == 2 && bytes[0] == 0x5b && bytes[1] == 0x5d ==> items_of(bytes) == Some(
            Seq::<Seq<u8>>::empty(),
        ),
        bytes[0] == 0x7b && after_space(bytes.skip(1)).len() > 0 && after_space(bytes.skip(1))[0]
            != 0x7d ==> members_of(bytes) == members_from(bytes.skip(1)),
        bytes[0] == 0x5b && after_space(bytes.skip(1)).len() > 0 && after_space(bytes.skip(1))[0]
            != 0x5d ==> items_of(bytes) == items_from(bytes.skip(1)),
{
    if bytes.len() == 2 && bytes[1] != 0x20 {
        let rest = bytes.skip(1);
        assert(rest.len() == 1 && rest[0] == bytes[1]);
        assert(rest.skip(1).len() == 0);
    }
}

/// A member is a text, a colon and a value.
pub proof fn law_a_member_is_a_name_and_a_value(
    bytes: Seq<u8>,
    key: Seq<u8>,
    colon: Seq<u8>,
    name: Seq<char>,
)
    requires
        first_value(bytes) == Some((key, colon)),
        json_bytes_reading(key) == Some(JsonView::Text(name)),
    ensures
        colon.len() > 0 && colon[0] == 0x3a ==> (match first_value(colon.skip(1)) {
            Some((value, rest)) => first_member(bytes) == Some(((name, value), rest)),
            None => first_member(bytes) is None,
        }),
        colon.len() == 0 || colon[0] != 0x3a ==> first_member(bytes) is None,
{
}

} // verus!
