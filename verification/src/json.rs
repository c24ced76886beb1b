//! JSON values.

use vstd::prelude::*;
use vstd::string::*;
use vstd::utf8::encode_utf8;
use serde_json::Value;
use crate::records::{loose_of, loosened};
use crate::text::{concat, decimal, text_eq, to_decimal};

verus! {

/// A number that is no 64-bit integer, in the text that it is written as.
pub struct FloatText {
    text: String,
}

impl FloatText {
    /// The text of the number.
    pub closed spec fn view(&self) -> Seq<char> {
        self.text@
    }
}

/// A JSON number.
pub enum Number {
    /// An integer from zero up.
    Unsigned(u64),
    /// An integer below zero.
    Negative(i64),
    /// Any other number.
    Float(FloatText),
}

/// A JSON value. The members of an object stand in the order in which they are
/// written; where a name is repeated, the first member of that name counts.
pub enum Json {
    Null,
    Bool(bool),
    Number(Number),
    Text(String),
    Array(Vec<Json>),
    Object(Vec<Member>),
}

/// One member of an object.
pub struct Member {
    pub name: String,
    pub value: Json,
}

/// The model of [`Number`].
pub enum NumberView {
    Unsigned(u64),
    Negative(i64),
    Float(Seq<char>),
}

/// The model of [`Json`].
pub enum JsonView {
    Null,
    Bool(bool),
    Number(NumberView),
    Text(Seq<char>),
    Array(Seq<JsonView>),
    Object(Seq<(Seq<char>, JsonView)>),
}

/// What a JSON value means: an object is a map from names to values, in no
/// order, and zero has no sign.
pub enum JsonValue {
    Null,
    Bool(bool),
    Number(NumberView),
    Text(Seq<char>),
    Array(Seq<JsonValue>),
    Object(Map<Seq<char>, JsonValue>),
}

impl Number {
    pub open spec fn view(&self) -> NumberView {
        match self {
            Number::Unsigned(n) => NumberView::Unsigned(*n),
            Number::Negative(n) => NumberView::Negative(*n),
            Number::Float(f) => NumberView::Float(f@),
        }
    }
}

impl Json {
    pub open spec fn view(&self) -> JsonView
        decreases self,
    {
        match self {
            Json::Null => JsonView::Null,
            Json::Bool(b) => JsonView::Bool(*b),
            Json::Number(n) => JsonView::Number(n@),
            Json::Text(t) => JsonView::Text(t@),
            Json::Array(items) => JsonView::Array(items_view(items@)),
            Json::Object(members) => JsonView::Object(members_view(members@)),
        }
    }
}

/// The models of the items of an array.
pub open spec fn items_view(items: Seq<Json>) -> Seq<JsonView>
    decreases items,
{
    Seq::new(
        items.len(),
        |i: int|
            if 0 <= i < items.len() {
                items[i].view()
            } else {
                arbitrary()
            },
    )
}

/// The models of the members of an object.
pub open spec fn members_view(members: Seq<Member>) -> Seq<(Seq<char>, JsonView)>
    decreases members,
{
    Seq::new(
        members.len(),
        |i: int|
            if 0 <= i < members.len() {
                (members[i].name@, members[i].value.view())
            } else {
                arbitrary()
            },
    )
}

impl NumberView {
    /// The number without the sign of a zero.
    pub open spec fn meaning(self) -> NumberView {
        match self {
            NumberView::Float(t) if t == seq!['-', '0', '.', '0'] => NumberView::Float(
                seq!['0', '.', '0'],
            ),
            _ => self,
        }
    }
}

/// The value of the first member of that name.
pub open spec fn lookup(members: Seq<(Seq<char>, JsonView)>, name: Seq<char>) -> Option<JsonView>
    decreases members.len(),
{
    if members.len() == 0 {
        None
    } else if members[0].0 == name {
        Some(members[0].1)
    } else {
        lookup(members.drop_first(), name)
    }
}

/// The members with the value of the first one of that name replaced, or with a
/// new member at the end where there is none.
pub open spec fn with_member(
    members: Seq<(Seq<char>, JsonView)>,
    name: Seq<char>,
    value: JsonView,
) -> Seq<(Seq<char>, JsonView)>
    decreases members.len(),
{
    if members.len() == 0 {
        seq![(name, value)]
    } else if members[0].0 == name {
        members.update(0, (name, value))
    } else {
        seq![members[0]] + with_member(members.drop_first(), name, value)
    }
}

/// The members of another name.
pub open spec fn without_member(members: Seq<(Seq<char>, JsonView)>, name: Seq<char>) -> Seq<
    (Seq<char>, JsonView),
>
    decreases members.len(),
{
    if members.len() == 0 {
        members
    } else if members.last().0 == name {
        without_member(members.drop_last(), name)
    } else {
        without_member(members.drop_last(), name).push(members.last())
    }
}

/// What the members of an object mean.
pub open spec fn members_meaning(members: Seq<(Seq<char>, JsonView)>) -> Map<Seq<char>, JsonValue>
    decreases members,
{
    if members.len() == 0 {
        Map::empty()
    } else {
        members_meaning(members.drop_first()).insert(members[0].0, members[0].1.meaning())
    }
}

impl JsonView {
    /// What the value means; two values that mean the same are equal as JSON.
    pub open spec fn meaning(self) -> JsonValue
        decreases self,
    {
        match self {
            JsonView::Null => JsonValue::Null,
            JsonView::Bool(b) => JsonValue::Bool(b),
            JsonView::Number(n) => JsonValue::Number(n.meaning()),
            JsonView::Text(t) => JsonValue::Text(t),
            JsonView::Array(items) => JsonValue::Array(
                Seq::new(
                    items.len(),
                    |i: int|
                        if 0 <= i < items.len() {
                            items[i].meaning()
                        } else {
                            arbitrary()
                        },
                ),
            ),
            JsonView::Object(members) => JsonValue::Object(members_meaning(members)),
        }
    }

    /// The member of that name, if this is an object that has one.
    pub open spec fn get(self, name: Seq<char>) -> Option<JsonView> {
        match self {
            JsonView::Object(members) => lookup(members, name),
            _ => None,
        }
    }

    /// The text, if this is one.
    pub open spec fn as_text(self) -> Option<Seq<char>> {
        match self {
            JsonView::Text(t) => Some(t),
            _ => None,
        }
    }

    /// The items, if this is an array.
    pub open spec fn as_items(self) -> Option<Seq<JsonView>> {
        match self {
            JsonView::Array(items) => Some(items),
            _ => None,
        }
    }

    /// The truth value, if this is one.
    pub open spec fn as_truth(self) -> Option<bool> {
        match self {
            JsonView::Bool(b) => Some(b),
            _ => None,
        }
    }

    /// The number, if this is an integer from zero up that fits in 64 bits.
    pub open spec fn as_unsigned(self) -> Option<u64> {
        match self {
            JsonView::Number(NumberView::Unsigned(n)) => Some(n),
            _ => None,
        }
    }

    /// The text of the member of that name.
    pub open spec fn get_text(self, name: Seq<char>) -> Option<Seq<char>> {
        match self.get(name) {
            Some(v) => v.as_text(),
            None => None,
        }
    }

    /// The member `second` of the member `first`.
    pub open spec fn get_in(self, first: Seq<char>, second: Seq<char>) -> Option<JsonView> {
        match self.get(first) {
            Some(v) => v.get(second),
            None => None,
        }
    }
}

/// The models of borrowed values that may be missing.
pub open spec fn opt_json(v: Option<&Json>) -> Option<JsonView> {
    match v {
        Some(j) => Some(j@),
        None => None,
    }
}

/// The text of a value that may be missing.
pub open spec fn text_of(value: Option<JsonView>) -> Option<Seq<char>> {
    match value {
        Some(v) => v.as_text(),
        None => None,
    }
}

/// A name is in the meaning of an object exactly if a member has it, with the
/// meaning of the first such member.
pub proof fn lemma_lookup_meaning(members: Seq<(Seq<char>, JsonView)>, name: Seq<char>)
    ensures
        members_meaning(members).dom().contains(name) <==> lookup(members, name) is Some,
        lookup(members, name) matches Some(v) ==> members_meaning(members)[name] == v.meaning(),
    decreases members.len(),
{
    if members.len() > 0 {
        lemma_lookup_meaning(members.drop_first(), name);
    }
}

/// A member that has been put in is found under its name, and no other name
/// changes.
pub proof fn lemma_lookup_with(
    members: Seq<(Seq<char>, JsonView)>,
    name: Seq<char>,
    value: JsonView,
    other: Seq<char>,
)
    ensures
        lookup(with_member(members, name, value), other) == if other == name {
            Some(value)
        } else {
            lookup(members, other)
        },
    decreases members.len(),
{
    let after = with_member(members, name, value);
    if members.len() == 0 {
        assert(after.drop_first() =~= members);
    } else if members[0].0 == name {
        assert(after.drop_first() =~= members.drop_first());
    } else {
        lemma_lookup_with(members.drop_first(), name, value, other);
        assert(after.drop_first() =~= with_member(members.drop_first(), name, value));
    }
}

proof fn lemma_lookup_push(
    members: Seq<(Seq<char>, JsonView)>,
    last: (Seq<char>, JsonView),
    other: Seq<char>,
)
    ensures
        lookup(members.push(last), other) == if lookup(members, other) is Some {
            lookup(members, other)
        } else if last.0 == other {
            Some(last.1)
        } else {
            None
        },
    decreases members.len(),
{
    let all = members.push(last);
    if members.len() == 0 {
        assert(all.drop_first() =~= members);
    } else {
        lemma_lookup_push(members.drop_first(), last, other);
        assert(all.drop_first() =~= members.drop_first().push(last));
    }
}

/// A name that has been taken out is gone, and no other name changes.
pub proof fn lemma_lookup_without(
    members: Seq<(Seq<char>, JsonView)>,
    name: Seq<char>,
    other: Seq<char>,
)
    ensures
        lookup(without_member(members, name), other) == if other == name {
            None
        } else {
            lookup(members, other)
        },
    decreases members.len(),
{
    if members.len() > 0 {
        let front = members.drop_last();
        lemma_lookup_without(front, name, other);
        lemma_lookup_push(front, members.last(), other);
        lemma_lookup_push(without_member(front, name), members.last(), other);
        assert(front.push(members.last()) =~= members);
    }
}

impl NumberView {
    /// The text that the number is written as.
    pub open spec fn text(self) -> Seq<char> {
        match self {
            NumberView::Unsigned(n) => decimal(n as nat),
            NumberView::Negative(n) => if n < 0 {
                "-"@ + decimal((-n) as nat)
            } else {
                decimal(n as nat)
            },
            NumberView::Float(t) => t,
        }
    }
}

impl Clone for FloatText {
    fn clone(&self) -> (r: Self)
        ensures
            r@ == self@,
    {
        FloatText { text: self.text.clone() }
    }
}

impl Clone for Number {
    fn clone(&self) -> (r: Self)
        ensures
            r@ == self@,
    {
        match self {
            Number::Unsigned(n) => Number::Unsigned(*n),
            Number::Negative(n) => Number::Negative(*n),
            Number::Float(f) => Number::Float(f.clone()),
        }
    }
}

impl Number {
    /// The text that the number is written as.
    pub fn to_text(&self) -> (r: String)
        ensures
            r@ == self@.text(),
    {
        match self {
            Number::Unsigned(n) => to_decimal(*n as u128),
            Number::Negative(n) => {
                let wide: i128 = *n as i128;
                if wide < 0 {
                    concat("-", to_decimal((-wide) as u128).as_str())
                } else {
                    to_decimal(wide as u128)
                }
            },
            Number::Float(f) => f.text.clone(),
        }
    }

    /// Whether two numbers mean the same.
    pub fn same(&self, other: &Number) -> (r: bool)
        ensures
            r == (self@.meaning() == other@.meaning()),
    {
        match (self, other) {
            (Number::Unsigned(a), Number::Unsigned(b)) => *a == *b,
            (Number::Negative(a), Number::Negative(b)) => *a == *b,
            (Number::Float(a), Number::Float(b)) => {
                proof {
                    reveal_strlit("-0.0");
                    reveal_strlit("0.0");
                    assert("-0.0"@ =~= seq!['-', '0', '.', '0']);
                    assert("0.0"@ =~= seq!['0', '.', '0']);
                }
                let a_zero = text_eq(a.text.as_str(), "-0.0") || text_eq(a.text.as_str(), "0.0");
                let b_zero = text_eq(b.text.as_str(), "-0.0") || text_eq(b.text.as_str(), "0.0");
                a.text == b.text || (a_zero && b_zero)
            },
            _ => false,
        }
    }
}

impl Clone for Json {
    fn clone(&self) -> (r: Self)
        ensures
            r@ == self@,
        decreases self,
    {
        match self {
            Json::Null => Json::Null,
            Json::Bool(b) => Json::Bool(*b),
            Json::Number(n) => Json::Number(n.clone()),
            Json::Text(t) => Json::Text(t.clone()),
            Json::Array(items) => {
                let mut out: Vec<Json> = Vec::new();
                let mut i: usize = 0;
                while i < items.len()
                    invariant
                        i <= items.len(),
                        *self == Json::Array(*items),
                        items_view(out@) =~= items_view(items@).take(i as int),
                    decreases items.len() - i,
                {
                    let ghost before = out@;
                    assert(decreases_to!(*self => self->Array_0));
                    assert(decreases_to!(*items => items@));
                    assert(decreases_to!(items@ => items@[i as int]));
                    let item = items[i].clone();
                    out.push(item);
                    assert(items_view(out@) =~= items_view(before).push(item@));
                    i += 1;
                }
                assert(items_view(items@).take(i as int) =~= items_view(items@));
                Json::Array(out)
            },
            Json::Object(members) => {
                let mut out: Vec<Member> = Vec::new();
                let mut i: usize = 0;
                while i < members.len()
                    invariant
                        i <= members.len(),
                        *self == Json::Object(*members),
                        members_view(out@) =~= members_view(members@).take(i as int),
                    decreases members.len() - i,
                {
                    let ghost before = out@;
                    assert(decreases_to!(*self => self->Object_0));
                    assert(decreases_to!(*members => members@));
                    assert(decreases_to!(members@ => members@[i as int]));
                    assert(decreases_to!(members@[i as int] => members@[i as int].value));
                    let member = Member {
                        name: members[i].name.clone(),
                        value: members[i].value.clone(),
                    };
                    out.push(member);
                    assert(members_view(out@) =~= members_view(before).push(
                        (member.name@, member.value@),
                    ));
                    i += 1;
                }
                assert(members_view(members@).take(i as int) =~= members_view(members@));
                Json::Object(out)
            },
        }
    }
}

/// A name is found exactly if some member has it.
pub proof fn lemma_lookup_found(members: Seq<(Seq<char>, JsonView)>, name: Seq<char>)
    ensures
        lookup(members, name) is Some <==> exists|i: int|
            0 <= i < members.len() && (#[trigger] members[i]).0 == name,
    decreases members.len(),
{
    if members.len() > 0 {
        let rest = members.drop_first();
        lemma_lookup_found(rest, name);
        assert forall|i: int| 0 <= i < rest.len() implies rest[i] == #[trigger] members[i + 1] by {}
        if members[0].0 != name && lookup(rest, name) is None {
            assert forall|i: int| 0 <= i < members.len() implies (#[trigger] members[i]).0 != name by {
                if i > 0 {
                    assert(rest[i - 1] == members[i]);
                }
            }
        }
    }
}

/// The position of the first member of that name.
pub fn find_member(members: &Vec<Member>, name: &str) -> (r: Option<usize>)
    ensures
        match r {
            Some(i) => i < members.len() && lookup(members_view(members@), name@) == Some(
                members@[i as int].value@,
            ) && members@[i as int].name@ == name@ && (forall|j: int|
                0 <= j < i ==> (#[trigger] members@[j]).name@ != name@),
            None => lookup(members_view(members@), name@) is None,
        },
{
    let ghost all = members_view(members@);
    let mut i: usize = 0;
    assert(all.skip(0) =~= all);
    while i < members.len()
        invariant
            i <= members.len(),
            all == members_view(members@),
            lookup(all, name@) == lookup(all.skip(i as int), name@),
            forall|j: int| 0 <= j < i ==> (#[trigger] members@[j]).name@ != name@,
        decreases members.len() - i,
    {
        assert(all.skip(i as int)[0] == all[i as int]);
        assert(all.skip(i as int).drop_first() =~= all.skip(i + 1));
        if text_eq(members[i].name.as_str(), name) {
            return Some(i);
        }
        i += 1;
    }
    None
}

impl Json {
    /// Whether two values are equal as JSON.
    pub fn same(&self, other: &Json) -> (r: bool)
        ensures
            r == (self@.meaning() == other@.meaning()),
        decreases self,
    {
        match (self, other) {
            (Json::Null, Json::Null) => true,
            (Json::Bool(a), Json::Bool(b)) => *a == *b,
            (Json::Number(a), Json::Number(b)) => a.same(b),
            (Json::Text(a), Json::Text(b)) => *a == *b,
            (Json::Array(a), Json::Array(b)) => {
                let ghost a_all = self@.meaning()->Array_0;
                let ghost b_all = other@.meaning()->Array_0;
                if a.len() != b.len() {
                    assert(a_all.len() != b_all.len());
                    return false;
                }
                let mut i: usize = 0;
                while i < a.len()
                    invariant
                        i <= a.len(),
                        a.len() == b.len(),
                        *self == Json::Array(*a),
                        *other == Json::Array(*b),
                        a_all == self@.meaning()->Array_0,
                        b_all == other@.meaning()->Array_0,
                        forall|j: int| 0 <= j < i ==> a_all[j] == b_all[j],
                    decreases a.len() - i,
                {
                    assert(decreases_to!(*self => self->Array_0));
                    assert(decreases_to!(*a => a@));
                    assert(decreases_to!(a@ => a@[i as int]));
                    assert(a_all[i as int] == a@[i as int]@.meaning());
                    assert(b_all[i as int] == b@[i as int]@.meaning());
                    if !a[i].same(&b[i]) {
                        return false;
                    }
                    i += 1;
                }
                assert(a_all =~= b_all);
                true
            },
            (Json::Object(a), Json::Object(b)) => {
                let ghost a_all = members_view(a@);
                let ghost b_all = members_view(b@);
                let mut i: usize = 0;
                while i < a.len()
                    invariant
                        i <= a.len(),
                        *self == Json::Object(*a),
                        *other == Json::Object(*b),
                        a_all == members_view(a@),
                        b_all == members_view(b@),
                        forall|j: int|
                            0 <= j < i ==> {
                                let name = (#[trigger] a@[j]).name@;
                                lookup(b_all, name) is Some && lookup(a_all, name) is Some && lookup(
                                    a_all,
                                    name,
                                )->0.meaning() == lookup(b_all, name)->0.meaning()
                            },
                    decreases a.len() - i,
                {
                    let name = a[i].name.as_str();
                    proof {
                        assert(a_all[i as int].0 == name@);
                        lemma_lookup_found(a_all, name@);
                        lemma_lookup_meaning(a_all, name@);
                        lemma_lookup_meaning(b_all, name@);
                    }
                    match (find_member(a, name), find_member(b, name)) {
                        (Some(m), Some(n)) => {
                            assert(decreases_to!(*self => self->Object_0));
                            assert(decreases_to!(*a => a@));
                            assert(decreases_to!(a@ => a@[m as int]));
                            assert(decreases_to!(a@[m as int] => a@[m as int].value));
                            if !a[m].value.same(&b[n].value) {
                                return false;
                            }
                        },
                        _ => {
                            return false;
                        },
                    }
                    i += 1;
                }
                let mut k: usize = 0;
                while k < b.len()
                    invariant
                        k <= b.len(),
                        *self == Json::Object(*a),
                        *other == Json::Object(*b),
                        a_all == members_view(a@),
                        b_all == members_view(b@),
                        forall|j: int|
                            0 <= j < k ==> lookup(a_all, (#[trigger] b@[j]).name@) is Some,
                    decreases b.len() - k,
                {
                    let name = b[k].name.as_str();
                    proof {
                        assert(b_all[k as int].0 == name@);
                        lemma_lookup_found(b_all, name@);
                        lemma_lookup_meaning(a_all, name@);
                        lemma_lookup_meaning(b_all, name@);
                    }
                    if find_member(a, name).is_none() {
                        return false;
                    }
                    k += 1;
                }
                proof {
                    let a_map = members_meaning(a_all);
                    let b_map = members_meaning(b_all);
                    assert forall|name: Seq<char>|
                        #![trigger a_map.dom().contains(name)]
                        #![trigger b_map.dom().contains(name)]
                        a_map.dom().contains(name) == b_map.dom().contains(name) && (
                        a_map.dom().contains(name) ==> a_map[name] == b_map[name]) by {
                        lemma_lookup_meaning(a_all, name);
                        lemma_lookup_meaning(b_all, name);
                        lemma_lookup_found(a_all, name);
                        lemma_lookup_found(b_all, name);
                        if lookup(a_all, name) is Some {
                            let j = choose|j: int|
                                0 <= j < a_all.len() && (#[trigger] a_all[j]).0 == name;
                            assert(a@[j].name@ == name);
                        }
                        if lookup(b_all, name) is Some {
                            let j = choose|j: int|
                                0 <= j < b_all.len() && (#[trigger] b_all[j]).0 == name;
                            assert(b@[j].name@ == name);
                        }
                    }
                    assert(a_map.dom() =~= b_map.dom());
                    assert(a_map =~= b_map);
                }
                true
            },
            _ => false,
        }
    }

    /// The member of that name, if this is an object that has one.
    pub fn get(&self, name: &str) -> (r: Option<&Json>)
        ensures
            opt_json(r) == self@.get(name@),
            r matches Some(v) ==> decreases_to!(*self => *v),
    {
        match self {
            Json::Object(members) => match find_member(members, name) {
                Some(i) => {
                    assert(decreases_to!(*self => self->Object_0));
                    assert(decreases_to!(*members => members@));
                    assert(decreases_to!(members@ => members@[i as int]));
                    assert(decreases_to!(members@[i as int] => members@[i as int].value));
                    Some(&members[i].value)
                },
                None => None,
            },
            _ => None,
        }
    }

    /// The member `second` of the member `first`.
    pub fn get_in(&self, first: &str, second: &str) -> (r: Option<&Json>)
        ensures
            opt_json(r) == self@.get_in(first@, second@),
    {
        match self.get(first) {
            Some(v) => v.get(second),
            None => None,
        }
    }

    /// The text, if this is one.
    pub fn as_text(&self) -> (r: Option<&str>)
        ensures
            crate::text::opt_str(r) == self@.as_text(),
    {
        match self {
            Json::Text(t) => Some(t.as_str()),
            _ => None,
        }
    }

    /// The items, if this is an array.
    pub fn as_items(&self) -> (r: Option<&Vec<Json>>)
        ensures
            match r {
                Some(items) => self@.as_items() == Some(items_view(items@)),
                None => self@.as_items() is None,
            },
    {
        match self {
            Json::Array(items) => Some(items),
            _ => None,
        }
    }

    /// The truth value, if this is one.
    pub fn as_truth(&self) -> (r: Option<bool>)
        ensures
            r == self@.as_truth(),
    {
        match self {
            Json::Bool(b) => Some(*b),
            _ => None,
        }
    }

    /// The number, if this is an integer from zero up that fits in 64 bits.
    pub fn as_unsigned(&self) -> (r: Option<u64>)
        ensures
            r == self@.as_unsigned(),
    {
        match self {
            Json::Number(Number::Unsigned(n)) => Some(*n),
            _ => None,
        }
    }

    /// The text of the member of that name.
    pub fn get_text(&self, name: &str) -> (r: Option<&str>)
        ensures
            crate::text::opt_str(r) == self@.get_text(name@),
    {
        match self.get(name) {
            Some(v) => v.as_text(),
            None => None,
        }
    }
}

/// Puts a member into an object.
pub fn set_member(members: &mut Vec<Member>, name: &str, value: Json)
    ensures
        members_view(final(members)@) == with_member(
            members_view(old(members)@),
            name@,
            value@,
        ),
{
    let ghost before = members_view(members@);
    match find_member(members, name) {
        Some(i) => {
            proof {
                lemma_with_at(before, name@, value@, i as int);
            }
            let member = Member { name: name.to_owned(), value };
            members.set(i, member);
            assert(members_view(members@) =~= before.update(i as int, (name@, value@)));
        },
        None => {
            proof {
                lemma_with_new(before, name@, value@);
            }
            let member = Member { name: name.to_owned(), value };
            members.push(member);
            assert(members_view(members@) =~= before.push((name@, value@)));
        },
    }
}

proof fn lemma_with_at(
    members: Seq<(Seq<char>, JsonView)>,
    name: Seq<char>,
    value: JsonView,
    i: int,
)
    requires
        0 <= i < members.len(),
        members[i].0 == name,
        forall|j: int| 0 <= j < i ==> (#[trigger] members[j]).0 != name,
    ensures
        with_member(members, name, value) == members.update(i, (name, value)),
    decreases members.len(),
{
    if i > 0 {
        let rest = members.drop_first();
        assert(members[0].0 != name);
        assert forall|j: int| 0 <= j < i - 1 implies (#[trigger] rest[j]).0 != name by {
            assert(rest[j] == members[j + 1]);
        }
        lemma_with_at(rest, name, value, i - 1);
        assert(with_member(members, name, value) =~= members.update(i, (name, value)));
    }
}

proof fn lemma_with_new(members: Seq<(Seq<char>, JsonView)>, name: Seq<char>, value: JsonView)
    requires
        lookup(members, name) is None,
    ensures
        with_member(members, name, value) == members.push((name, value)),
    decreases members.len(),
{
    if members.len() == 0 {
        assert(members.push((name, value)) =~= seq![(name, value)]);
    } else {
        lemma_with_new(members.drop_first(), name, value);
        assert(with_member(members, name, value) =~= members.push((name, value)));
    }
}

/// Takes every member of that name out of an object.
pub fn remove_member(members: Vec<Member>, name: &str) -> (r: Vec<Member>)
    ensures
        members_view(r@) == without_member(members_view(members@), name@),
{
    let ghost all = members_view(members@);
    let mut out: Vec<Member> = Vec::new();
    let mut i: usize = 0;
    assert(all.take(0) =~= Seq::<(Seq<char>, JsonView)>::empty());
    assert(members_view(out@) =~= Seq::<(Seq<char>, JsonView)>::empty());
    while i < members.len()
        invariant
            i <= members.len(),
            all == members_view(members@),
            members_view(out@) =~= without_member(all.take(i as int), name@),
        decreases members.len() - i,
    {
        let ghost before = members_view(out@);
        assert(all.take(i + 1).drop_last() =~= all.take(i as int));
        if !text_eq(members[i].name.as_str(), name) {
            let member = Member {
                name: members[i].name.clone(),
                value: members[i].value.clone(),
            };
            out.push(member);
            assert(members_view(out@) =~= before.push((member.name@, member.value@)));
        }
        i += 1;
    }
    assert(all.take(i as int) =~= all);
    out
}

/// A copy of the items of an array from position `from` on.
pub fn copy_items(items: &Vec<Json>, from: usize) -> (r: Vec<Json>)
    requires
        from <= items.len(),
    ensures
        items_view(r@) == items_view(items@).skip(from as int),
{
    let mut out: Vec<Json> = Vec::new();
    let mut i: usize = from;
    while i < items.len()
        invariant
            from <= i <= items.len(),
            items_view(out@) =~= items_view(items@).subrange(from as int, i as int),
        decreases items.len() - i,
    {
        let ghost before = out@;
        let item = items[i].clone();
        out.push(item);
        assert(items_view(out@) =~= items_view(before).push(item@));
        i += 1;
    }
    out
}

/// The members with a text under a name added, where there is one.
pub open spec fn and_text(
    members: Seq<(Seq<char>, JsonView)>,
    name: Seq<char>,
    text: Option<Seq<char>>,
) -> Seq<(Seq<char>, JsonView)> {
    match text {
        Some(t) => members.push((name, JsonView::Text(t))),
        None => members,
    }
}

/// A member that is a text.
pub fn text_member(name: &str, text: &str) -> (r: Member)
    ensures
        r.name@ == name@,
        r.value@ == JsonView::Text(text@),
{
    Member { name: name.to_owned(), value: Json::Text(text.to_owned()) }
}

/// Adds a text under a name, where there is one.
pub fn push_text(members: &mut Vec<Member>, name: &str, text: &Option<String>)
    ensures
        members_view(final(members)@) == and_text(
            members_view(old(members)@),
            name@,
            crate::text::opt_text(*text),
        ),
{
    if let Some(t) = text {
        let ghost before = members_view(members@);
        let member = text_member(name, t.as_str());
        members.push(member);
        assert(members_view(members@) =~= before.push((name@, JsonView::Text(t@))));
    }
}

impl NumberView {
    /// The number in its usual form: an integer from zero up is unsigned.
    pub open spec fn settled(self) -> NumberView {
        match self {
            NumberView::Negative(n) if n >= 0 => NumberView::Unsigned(n as u64),
            _ => self,
        }
    }
}

/// The members without those whose name a member before them has, each with its
/// value in its usual form.
pub open spec fn settled_members(members: Seq<(Seq<char>, JsonView)>) -> Seq<(Seq<char>, JsonView)>
    decreases members,
{
    if members.len() == 0 {
        members
    } else {
        let front = members.drop_last();
        if lookup(front, members.last().0) is Some {
            settled_members(front)
        } else {
            settled_members(front).push((members.last().0, members.last().1.settled()))
        }
    }
}

impl JsonView {
    /// The value in its usual form: numbers in theirs, and no members that do not
    /// count.
    pub open spec fn settled(self) -> JsonView
        decreases self,
    {
        match self {
            JsonView::Number(n) => JsonView::Number(n.settled()),
            JsonView::Array(items) => JsonView::Array(
                Seq::new(
                    items.len(),
                    |i: int|
                        if 0 <= i < items.len() {
                            items[i].settled()
                        } else {
                            arbitrary()
                        },
                ),
            ),
            JsonView::Object(members) => JsonView::Object(settled_members(members)),
            _ => self,
        }
    }

    /// Whether the value is nested no deeper than so many levels, all its numbers
    /// are integers, and no name begins with a dollar sign.
    pub open spec fn is_plain(self, levels: nat) -> bool
        decreases levels,
    {
        match self {
            JsonView::Number(NumberView::Float(_)) => false,
            JsonView::Array(items) => levels > 0 && forall|i: int|
                0 <= i < items.len() ==> (#[trigger] items[i]).is_plain((levels - 1) as nat),
            JsonView::Object(members) => levels > 0 && forall|i: int|
                0 <= i < members.len() ==> {
                    &&& (#[trigger] members[i]).1.is_plain((levels - 1) as nat)
                    &&& members[i].0.len() > 0 ==> members[i].0[0] != '$'
                },
            _ => true,
        }
    }
}

/// The names that are found are the same once the members are settled.
proof fn lemma_settled_lookup(members: Seq<(Seq<char>, JsonView)>, name: Seq<char>)
    ensures
        lookup(settled_members(members), name) is Some <==> lookup(members, name) is Some,
    decreases members.len(),
{
    if members.len() > 0 {
        let front = members.drop_last();
        let last = members.last();
        lemma_settled_lookup(front, name);
        lemma_lookup_push(front, last, name);
        lemma_lookup_push(settled_members(front), (last.0, last.1.settled()), name);
        assert(front.push(last) =~= members);
    }
}

proof fn lemma_settled_members_twice(members: Seq<(Seq<char>, JsonView)>)
    requires
        forall|i: int|
            0 <= i < members.len() ==> (#[trigger] members[i]).1.settled().settled()
                == members[i].1.settled(),
    ensures
        settled_members(settled_members(members)) == settled_members(members),
    decreases members.len(),
{
    if members.len() > 0 {
        let front = members.drop_last();
        let last = members.last();
        assert(last == members[members.len() - 1]);
        assert forall|i: int| 0 <= i < front.len() implies (#[trigger] front[i]).1.settled().settled()
            == front[i].1.settled() by {
            assert(front[i] == members[i]);
        }
        lemma_settled_members_twice(front);
        lemma_settled_lookup(front, last.0);
        let settled = settled_members(members);
        if lookup(front, last.0) is None {
            assert(settled.drop_last() =~= settled_members(front));
        }
    }
}

/// Settling a value that is in its usual form changes nothing.
pub proof fn law_settled_twice(value: JsonView)
    ensures
        value.settled().settled() == value.settled(),
    decreases value,
{
    match value {
        JsonView::Array(items) => {
            assert forall|i: int| 0 <= i < items.len() implies (#[trigger] items[i]).settled().settled()
                == items[i].settled() by {
                law_settled_twice(items[i]);
            }
            assert(value.settled().settled()->Array_0 =~= value.settled()->Array_0);
        },
        JsonView::Object(members) => {
            assert forall|i: int| 0 <= i < members.len() implies (
            #[trigger] members[i]).1.settled().settled() == members[i].1.settled() by {
                law_settled_twice(members[i].1);
            }
            lemma_settled_members_twice(members);
        },
        _ => {},
    }
}

impl Number {
    /// The number in its usual form.
    pub fn settle(&self) -> (r: Number)
        ensures
            r@ == self@.settled(),
    {
        match self {
            Number::Negative(n) => if *n >= 0 {
                Number::Unsigned(*n as u64)
            } else {
                Number::Negative(*n)
            },
            _ => self.clone(),
        }
    }
}

impl Json {
    /// The value in its usual form: numbers in theirs, and of members of the same
    /// name the first one only.
    pub fn settle(&self) -> (r: Json)
        ensures
            r@ == self@.settled(),
        decreases self,
    {
        match self {
            Json::Number(n) => Json::Number(n.settle()),
            Json::Array(items) => {
                let mut out: Vec<Json> = Vec::new();
                let mut i: usize = 0;
                while i < items.len()
                    invariant
                        i <= items.len(),
                        *self == Json::Array(*items),
                        items_view(out@) =~= self@.settled()->Array_0.take(i as int),
                    decreases items.len() - i,
                {
                    let ghost before = out@;
                    assert(decreases_to!(*self => self->Array_0));
                    assert(decreases_to!(*items => items@));
                    assert(decreases_to!(items@ => items@[i as int]));
                    let item = items[i].settle();
                    out.push(item);
                    assert(items_view(out@) =~= items_view(before).push(item@));
                    i += 1;
                }
                assert(items_view(out@) =~= self@.settled()->Array_0);
                Json::Array(out)
            },
            Json::Object(members) => {
                let ghost all = members_view(members@);
                let mut out: Vec<Member> = Vec::new();
                let mut i: usize = 0;
                while i < members.len()
                    invariant
                        i <= members.len(),
                        *self == Json::Object(*members),
                        all == members_view(members@),
                        members_view(out@) =~= settled_members(all.take(i as int)),
                    decreases members.len() - i,
                {
                    let ghost before = out@;
                    let ghost front = all.take(i as int);
                    assert(decreases_to!(*self => self->Object_0));
                    assert(decreases_to!(*members => members@));
                    assert(decreases_to!(members@ => members@[i as int]));
                    assert(decreases_to!(members@[i as int] => members@[i as int].value));
                    proof {
                        lemma_settled_lookup(front, members@[i as int].name@);
                        assert(all.take(i + 1).drop_last() =~= front);
                        assert(all.take(i + 1).last() == (
                            members@[i as int].name@,
                            members@[i as int].value@,
                        ));
                    }
                    if find_member(&out, members[i].name.as_str()).is_none() {
                        let member = Member {
                            name: members[i].name.clone(),
                            value: members[i].value.settle(),
                        };
                        out.push(member);
                        assert(members_view(out@) =~= members_view(before).push(
                            (member.name@, member.value@),
                        ));
                    }
                    i += 1;
                }
                assert(all.take(i as int) =~= all);
                Json::Object(out)
            },
            _ => self.clone(),
        }
    }
}

/// `serde_json::Value`, whose contents are named below.
#[verifier::external_type_specification]
#[verifier::external_body]
pub struct ExValue(serde_json::Value);

/// What a `serde_json::Value` holds, its members in the order of its map.
pub uninterp spec fn value_contents(value: serde_json::Value) -> JsonView;

/// What `serde_json::from_str` reads from a text, if it is one JSON value.
pub uninterp spec fn json_reading(text: Seq<char>) -> Option<JsonView>;

/// What `serde_json::from_slice` reads from bytes, if they are one JSON value.
pub uninterp spec fn json_bytes_reading(bytes: Seq<u8>) -> Option<JsonView>;

/// The compact text that `serde_json` writes for a value.
pub uninterp spec fn json_text(value: JsonView) -> Seq<char>;

/// `serde_json::from_str::<Value>`: its result is named, a failure is `None`.
#[verifier::external_body]
fn read_value(text: &str) -> (r: Option<serde_json::Value>)
    ensures
        match r {
            Some(v) => json_reading(text@) == Some(value_contents(v)),
            None => json_reading(text@) is None,
        },
{
    serde_json::from_str(text).ok()
}

/// `serde_json::from_slice::<Value>`: its result is named, a failure is `None`.
#[verifier::external_body]
fn read_value_bytes(bytes: &[u8]) -> (r: Option<serde_json::Value>)
    ensures
        match r {
            Some(v) => json_bytes_reading(bytes@) == Some(value_contents(v)),
            None => json_bytes_reading(bytes@) is None,
        },
{
    serde_json::from_slice(bytes).ok()
}

/// Moves a `serde_json::Value` into the type of this library, variant by
/// variant, the members of an object in the order of its map.
#[verifier::external_body]
fn json_of_value(value: serde_json::Value) -> (r: Json)
    ensures
        r@ == value_contents(value),
{
    match value {
        Value::Null => Json::Null,
        Value::Bool(b) => Json::Bool(b),
        Value::Number(n) => Json::Number(match (n.as_u64(), n.as_i64()) {
            (Some(u), _) => Number::Unsigned(u),
            (None, Some(i)) => Number::Negative(i),
            _ => Number::Float(FloatText { text: n.to_string() }),
        }),
        Value::String(t) => Json::Text(t),
        Value::Array(a) => Json::Array(a.into_iter().map(json_of_value).collect()),
        Value::Object(m) => Json::Object(
            m.into_iter().map(|(name, v)| Member { name, value: json_of_value(v) }).collect()),
    }
}

/// Builds a `serde_json::Value` from a value of this library, variant by
/// variant. The value has to be in its usual form. A `serde_json::Map` keeps its
/// members in the order in which they are put in.
#[verifier::external_body]
fn value_of_json(json: &Json) -> (r: serde_json::Value)
    requires
        json@ == json@.settled(),
    ensures
        value_contents(r) == json@,
{
    match json {
        Json::Null => Value::Null,
        Json::Bool(b) => Value::Bool(*b),
        Json::Number(Number::Unsigned(n)) => Value::from(*n),
        Json::Number(Number::Negative(n)) => Value::from(*n),
        Json::Number(Number::Float(f)) => Value::Number(f.text.parse().expect("number")),
        Json::Text(t) => t.clone().into(),
        Json::Array(a) => a.iter().map(value_of_json).collect(),
        Json::Object(m) => m.iter().map(|x| (x.name.clone(), value_of_json(&x.value))).collect(),
    }
}

/// `serde_json::Value::to_string`: its result is named.
#[verifier::external_body]
fn value_text(value: &serde_json::Value) -> (r: String)
    ensures
        r@ == json_text(value_contents(*value)),
{
    value.to_string()
}

/// The value that a `serde_json::Value` holds.
pub fn json_from_value(value: serde_json::Value) -> (r: Json)
    ensures
        r@ == value_contents(value),
{
    json_of_value(value)
}

/// The `serde_json::Value` that holds a value.
pub fn json_into_value(value: &Json) -> (r: serde_json::Value)
    ensures
        value_contents(r) == value@.settled(),
{
    proof {
        law_settled_twice(value@);
    }
    value_of_json(&value.settle())
}

/// Reads one JSON value from a text.
pub fn parse_json(text: &str) -> (r: Option<Json>)
    ensures
        match r {
            Some(v) => json_reading(text@) == Some(v@),
            None => json_reading(text@) is None,
        },
{
    match read_value(text) {
        Some(v) => Some(json_of_value(v)),
        None => None,
    }
}

/// Reads one JSON value from bytes.
pub fn parse_json_bytes(bytes: &[u8]) -> (r: Option<Json>)
    ensures
        match r {
            Some(v) => json_bytes_reading(bytes@) == Some(v@),
            None => json_bytes_reading(bytes@) is None,
        },
{
    match read_value_bytes(bytes) {
        Some(v) => Some(json_of_value(v)),
        None => None,
    }
}

/// Writes a value as compact JSON text.
pub fn json_to_text(value: &Json) -> (r: String)
    ensures
        r@ == json_text(value@.settled()),
{
    value_text(&json_into_value(value))
}

/// Whether a text is read as a value, however far it is looked into.
pub open spec fn reads_back(text: Seq<char>, value: JsonView) -> bool {
    forall|levels: nat| #[trigger]
        loose_of(encode_utf8(text), levels) == loosened(value, levels)
}

/// The indented text that `serde_json::to_string_pretty` writes for a value.
pub uninterp spec fn json_pretty(value: JsonView) -> Seq<char>;

/// `serde_json::to_string_pretty`: its result is named. A value with no more than
/// a hundred levels, no floating-point numbers and no names of the kind that the
/// crate keeps for itself is read back from its text as it was, part by part, no
/// name standing twice. The text of an object begins and ends with a brace.
#[verifier::external_body]
fn value_pretty(value: &serde_json::Value) -> (r: String)
    ensures
        r@ == json_pretty(value_contents(*value)),
        value_contents(*value).is_plain(100) ==> reads_back(r@, value_contents(*value)),
        value_contents(*value) is Object ==> r@.len() > 1 && r@[0] == '{' && r@.last() == '}',
{
    serde_json::to_string_pretty(value).expect("a value has a text")
}

/// Writes a value as indented JSON text. A plain value is read back from it.
pub fn json_to_pretty(value: &Json) -> (r: String)
    ensures
        r@ == json_pretty(value@.settled()),
        value@.settled().is_plain(100) ==> reads_back(r@, value@.settled()),
        value@.settled() is Object ==> r@.len() > 1 && r@[0] == '{' && r@.last() == '}',
{
    value_pretty(&json_into_value(value))
}

/// What the member of a name means, if there is one.
pub open spec fn member_meaning(value: JsonView, name: Seq<char>) -> Option<JsonValue> {
    match value.get(name) {
        Some(v) => Some(v.meaning()),
        None => None,
    }
}

/// Two objects mean the same exactly if under each name both have a member of the
/// same meaning or neither has one, whatever the order of their members.
pub proof fn law_objects_mean_their_members(a: JsonView, b: JsonView)
    requires
        a is Object,
        b is Object,
    ensures
        a.meaning() == b.meaning() <==> forall|name: Seq<char>| #[trigger]
            member_meaning(a, name) == member_meaning(b, name),
{
    let x = a->Object_0;
    let y = b->Object_0;
    assert forall|name: Seq<char>| #[trigger]
        member_meaning(a, name) == (if members_meaning(x).dom().contains(name) {
            Some(members_meaning(x)[name])
        } else {
            None
        }) by {
        lemma_lookup_meaning(x, name);
    }
    assert forall|name: Seq<char>| #[trigger]
        member_meaning(b, name) == (if members_meaning(y).dom().contains(name) {
            Some(members_meaning(y)[name])
        } else {
            None
        }) by {
        lemma_lookup_meaning(y, name);
    }
    if forall|name: Seq<char>| #[trigger] member_meaning(a, name) == member_meaning(b, name) {
        assert forall|name: Seq<char>| #[trigger]
            members_meaning(x).dom().contains(name) == members_meaning(y).dom().contains(name) by {
            assert(member_meaning(a, name) == member_meaning(b, name));
        }
        assert forall|name: Seq<char>| members_meaning(x).dom().contains(name) implies #[trigger]
        members_meaning(x)[name] == members_meaning(y)[name] by {
            assert(member_meaning(a, name) == member_meaning(b, name));
        }
        assert(members_meaning(x) =~= members_meaning(y));
    }
}

/// Two arrays mean the same exactly if they have as many items and each means the
/// same as the one at its place. Texts and truth values mean themselves, and no
/// two values of different kinds mean the same.
pub proof fn law_values_mean_themselves(a: JsonView, b: JsonView)
    ensures
        a is Array && b is Array ==> (a.meaning() == b.meaning() <==> a->Array_0.len()
            == b->Array_0.len() && forall|i: int|
            0 <= i < a->Array_0.len() ==> (#[trigger] a->Array_0[i]).meaning()
                == b->Array_0[i].meaning()),
        a is Text && b is Text ==> (a.meaning() == b.meaning() <==> a == b),
        a is Bool && b is Bool ==> (a.meaning() == b.meaning() <==> a == b),
        a is Number && !(a->Number_0 is Float) ==> (a.meaning() == b.meaning() <==> a == b),
        a is Number && b is Number && a->Number_0 is Float && b->Number_0 is Float && a.meaning()
            == b.meaning() && a != b ==> {
            let zero = seq!['0', '.', '0'];
            let signed = seq!['-', '0', '.', '0'];
            let x = a->Number_0->Float_0;
            let y = b->Number_0->Float_0;
            (x == zero && y == signed) || (x == signed && y == zero)
        },
        a is Null && b is Null ==> a.meaning() == b.meaning(),
        a.meaning() == b.meaning() ==> (a is Null <==> b is Null) && (a is Bool <==> b is Bool) && (
        a is Number <==> b is Number) && (a is Text <==> b is Text) && (a is Array <==> b is Array)
            && (a is Object <==> b is Object),
{
    if a is Array && b is Array {
        let x = a->Array_0;
        let y = b->Array_0;
        if a.meaning() == b.meaning() {
            assert(a.meaning()->Array_0.len() == x.len());
            assert(b.meaning()->Array_0.len() == y.len());
            assert forall|i: int| 0 <= i < x.len() implies (#[trigger] x[i]).meaning()
                == y[i].meaning() by {
                assert(a.meaning()->Array_0[i] == x[i].meaning());
                assert(b.meaning()->Array_0[i] == y[i].meaning());
            }
        } else if x.len() == y.len() && forall|i: int|
            0 <= i < x.len() ==> (#[trigger] x[i]).meaning() == y[i].meaning() {
            assert(a.meaning()->Array_0 =~= b.meaning()->Array_0);
        }
    }
}

/// The member of a name is the first one that has it.
pub proof fn law_first_member_counts(members: Seq<(Seq<char>, JsonView)>, name: Seq<char>)
    ensures
        match JsonView::Object(members).get(name) {
            Some(v) => exists|i: int|
                0 <= i < members.len() && (#[trigger] members[i]) == (name, v) && forall|j: int|
                    0 <= j < i ==> (#[trigger] members[j]).0 != name,
            None => forall|j: int| 0 <= j < members.len() ==> (#[trigger] members[j]).0 != name,
        },
    decreases members.len(),
{
    if members.len() > 0 {
        let rest = members.drop_first();
        law_first_member_counts(rest, name);
        if members[0].0 == name {
            assert(members[0] == (name, members[0].1));
        } else {
            match JsonView::Object(rest).get(name) {
                Some(v) => {
                    let i = choose|i: int|
                        0 <= i < rest.len() && (#[trigger] rest[i]) == (name, v) && forall|j: int|
                            0 <= j < i ==> (#[trigger] rest[j]).0 != name;
                    assert(members[i + 1] == (name, v));
                    assert forall|j: int| 0 <= j < i + 1 implies (#[trigger] members[j]).0
                        != name by {
                        if j > 0 {
                            assert(rest[j - 1] == members[j]);
                        }
                    }
                },
                None => {
                    assert forall|j: int| 0 <= j < members.len() implies (#[trigger] members[j]).0
                        != name by {
                        if j > 0 {
                            assert(rest[j - 1] == members[j]);
                        }
                    }
                },
            }
        }
    }
}

/// A value in its usual form means what it meant, but for whole numbers that were
/// held as signed ones, and an object keeps the members that count: under each
/// name it has the member that it had, in its usual form, and no name twice.
pub proof fn law_settling_keeps_members(members: Seq<(Seq<char>, JsonView)>, name: Seq<char>)
    ensures
        JsonView::Object(members).settled().get(name) == match JsonView::Object(members).get(name) {
            Some(v) => Some(v.settled()),
            None => None,
        },
        JsonView::Object(members).settled() is Object,
        forall|i: int, j: int|
            0 <= i < j < settled_members(members).len() ==> (#[trigger] settled_members(
                members,
            )[i]).0 != (#[trigger] settled_members(members)[j]).0,
    decreases members.len(),
{
    if members.len() > 0 {
        let front = members.drop_last();
        let last = members.last();
        law_settling_keeps_members(front, name);
        lemma_lookup_push(front, last, name);
        lemma_lookup_push(settled_members(front), (last.0, last.1.settled()), name);
        lemma_settled_lookup(front, last.0);
        lemma_lookup_found(settled_members(front), last.0);
        assert(front.push(last) =~= members);
        assert(JsonView::Object(front).settled() == JsonView::Object(settled_members(front)));
        assert(JsonView::Object(members).settled() == JsonView::Object(settled_members(members)));
        assert(JsonView::Object(members).settled().get(name) == lookup(
            settled_members(members),
            name,
        ));
        assert forall|i: int, j: int|
            0 <= i < j < settled_members(members).len() implies (#[trigger] settled_members(
            members,
        )[i]).0 != (#[trigger] settled_members(members)[j]).0 by {
            let before = settled_members(front);
            if lookup(front, last.0) is Some {
                assert(before[i].0 != before[j].0);
            } else if j < before.len() {
                assert(before[i].0 != before[j].0);
            } else {
                assert(before[i].0 != last.0);
            }
        }
    }
}

/// Texts, truth values, whole numbers from zero up and items of arrays are what
/// they were in the usual form.
pub proof fn law_settling_keeps_values(value: JsonView)
    ensures
        value is Text || value is Bool || value is Null ==> value.settled() == value,
        value matches JsonView::Number(NumberView::Unsigned(n)) ==> value.settled() == value,
        value matches JsonView::Number(NumberView::Negative(n)) ==> value.settled() == (if n < 0 {
            value
        } else {
            JsonView::Number(NumberView::Unsigned(n as u64))
        }),
        value matches JsonView::Number(NumberView::Float(t)) ==> value.settled() == value,
        value matches JsonView::Array(items) ==> (value.settled() matches JsonView::Array(after)
            && after.len() == items.len() && forall|i: int|
            0 <= i < items.len() ==> #[trigger] after[i] == items[i].settled()),
{
}

} // verus!
