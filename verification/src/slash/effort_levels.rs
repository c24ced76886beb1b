//! The rows of effort menus, and stepping through them.

use vstd::prelude::*;
use vstd::string::*;
use crate::efforts::{menu, EffortOptionView, ReasoningEffort, ReasoningEffortOption};
use crate::slash::command::ArgItem;
use crate::text::concat;

verus! {

/// The efforts of the built-in menu, strongest first.
pub open spec fn effort_levels() -> Seq<ReasoningEffort> {
    seq![
        ReasoningEffort::Xhigh,
        ReasoningEffort::High,
        ReasoningEffort::Medium,
        ReasoningEffort::Low,
    ]
}

/// What an effort is described as.
pub open spec fn described(level: ReasoningEffort) -> Seq<char> {
    match level {
        ReasoningEffort::Off => "No reasoning"@,
        ReasoningEffort::Minimal => "Minimal reasoning"@,
        ReasoningEffort::Low => "Faster, lighter reasoning"@,
        ReasoningEffort::Medium => "Balanced reasoning"@,
        ReasoningEffort::High => "Heavy reasoning"@,
        ReasoningEffort::Xhigh => "Extended reasoning"@,
        ReasoningEffort::Max => "Maximum reasoning"@,
    }
}

/// What an effort is described as.
pub fn effort_description(level: ReasoningEffort) -> (r: &'static str)
    ensures
        r@ == described(level),
{
    match level {
        ReasoningEffort::Off => "No reasoning",
        ReasoningEffort::Minimal => "Minimal reasoning",
        ReasoningEffort::Low => "Faster, lighter reasoning",
        ReasoningEffort::Medium => "Balanced reasoning",
        ReasoningEffort::High => "Heavy reasoning",
        ReasoningEffort::Xhigh => "Extended reasoning",
        ReasoningEffort::Max => "Maximum reasoning",
    }
}

/// The row of the built-in menu for an effort.
pub open spec fn legacy_row(level: ReasoningEffort) -> EffortOptionView {
    EffortOptionView {
        id: level.name(),
        value: level,
        label: level.name(),
        description: Some(described(level)),
        default: false,
    }
}

fn legacy_option(level: ReasoningEffort) -> (r: ReasoningEffortOption)
    ensures
        r@ == legacy_row(level),
{
    ReasoningEffortOption {
        id: level.as_str().to_owned(),
        value: level,
        label: level.as_str().to_owned(),
        description: Some(effort_description(level).to_owned()),
        default: false,
    }
}

/// The menu that is used where the server sends none. No row is the default: the
/// active one is found by its value.
pub fn legacy_effort_options() -> (r: Vec<ReasoningEffortOption>)
    ensures
        menu(r@) == effort_levels().map_values(|level: ReasoningEffort| legacy_row(level)),
{
    let mut out: Vec<ReasoningEffortOption> = Vec::new();
    out.push(legacy_option(ReasoningEffort::Xhigh));
    out.push(legacy_option(ReasoningEffort::High));
    out.push(legacy_option(ReasoningEffort::Medium));
    out.push(legacy_option(ReasoningEffort::Low));
    assert(menu(out@) =~= effort_levels().map_values(|level: ReasoningEffort| legacy_row(level)));
    out
}

/// The largest number of rows for which there are sort prefixes.
pub const MAX_ROWS: usize = 159;

/// The suggestion for a row of a menu. The match text starts with a character
/// that sorts like the position of the row, so that the order of the menu is kept.
pub open spec fn is_effort_item(
    item: ArgItem,
    option: ReasoningEffortOption,
    position: int,
    active: bool,
) -> bool {
    &&& item.display@ == option.label@ + if active {
        " (active)"@
    } else {
        ""@
    }
    &&& item.match_text@ == seq![(97 + position) as char] + " "@ + item.insert_text@
    &&& item.description@ == match option.description {
        Some(d) => d@,
        None => Seq::empty(),
    }
}

/// The suggestions for the rows of a menu; `insert_text_for` gives the text that
/// choosing a row inserts.
pub fn build_effort_arg_items<F: Fn(&ReasoningEffortOption) -> String>(
    options: &[ReasoningEffortOption],
    current_effort: Option<ReasoningEffort>,
    mark_active: bool,
    insert_text_for: F,
) -> (r: Vec<ArgItem>)
    requires
        options@.len() <= MAX_ROWS,
        forall|i: int|
            0 <= i < options@.len() ==> call_requires(insert_text_for, (&#[trigger] options@[i],)),
    ensures
        r@.len() == options@.len(),
        forall|i: int|
            0 <= i < options@.len() ==> {
                &&& is_effort_item(
                    #[trigger] r@[i],
                    options@[i],
                    i,
                    mark_active && current_effort == Some(options@[i].value),
                )
                &&& call_ensures(insert_text_for, (&options@[i],), r@[i].insert_text)
            },
{
    let mut out: Vec<ArgItem> = Vec::new();
    let mut idx: usize = 0;
    while idx < options.len()
        invariant
            idx <= options@.len() <= MAX_ROWS,
            out@.len() == idx,
            forall|i: int|
                0 <= i < options@.len() ==> call_requires(
                    insert_text_for,
                    (&#[trigger] options@[i],),
                ),
            forall|i: int|
                0 <= i < idx ==> {
                    &&& is_effort_item(
                        #[trigger] out@[i],
                        options@[i],
                        i,
                        mark_active && current_effort == Some(options@[i].value),
                    )
                    &&& call_ensures(insert_text_for, (&options@[i],), out@[i].insert_text)
                },
        decreases options@.len() - idx,
    {
        let option = &options[idx];
        let active = mark_active && match current_effort {
            Some(effort) => effort == option.value,
            None => false,
        };
        let active_suffix = if active {
            " (active)"
        } else {
            ""
        };
        let insert_text = insert_text_for(option);
        let mut match_text = String::new();
        match_text.push((97 + idx as u8) as char);
        assert(match_text@ =~= seq![(97 + idx) as char]);
        match_text.append(" ");
        match_text.append(insert_text.as_str());
        let description = match &option.description {
            Some(d) => d.clone(),
            None => String::new(),
        };
        out.push(
            ArgItem {
                display: concat(option.label.as_str(), active_suffix),
                match_text,
                insert_text,
                description,
            },
        );
        idx += 1;
    }
    out
}

/// How strong an effort is.
pub open spec fn strength(level: ReasoningEffort) -> int {
    match level {
        ReasoningEffort::Off => 0,
        ReasoningEffort::Minimal => 1,
        ReasoningEffort::Low => 2,
        ReasoningEffort::Medium => 3,
        ReasoningEffort::High => 4,
        ReasoningEffort::Xhigh => 5,
        ReasoningEffort::Max => 6,
    }
}

/// How strong an effort is.
pub fn effort_strength(level: ReasoningEffort) -> (r: u8)
    ensures
        r == strength(level),
{
    match level {
        ReasoningEffort::Off => 0,
        ReasoningEffort::Minimal => 1,
        ReasoningEffort::Low => 2,
        ReasoningEffort::Medium => 3,
        ReasoningEffort::High => 4,
        ReasoningEffort::Xhigh => 5,
        ReasoningEffort::Max => 6,
    }
}

/// The position of the weakest row above a strength, the first of equals.
pub open spec fn weakest_above(options: Seq<ReasoningEffortOption>, floor: int) -> Option<int>
    decreases options.len(),
{
    if options.len() == 0 {
        None
    } else {
        let front = weakest_above(options.drop_last(), floor);
        let last = strength(options.last().value);
        if last > floor && (front is None || last < strength(options[front->0].value)) {
            Some(options.len() - 1)
        } else {
            front
        }
    }
}

/// The position of the strongest row below a strength, the last of equals.
pub open spec fn strongest_below(options: Seq<ReasoningEffortOption>, ceiling: int) -> Option<int>
    decreases options.len(),
{
    if options.len() == 0 {
        None
    } else {
        let front = strongest_below(options.drop_last(), ceiling);
        let last = strength(options.last().value);
        if last < ceiling && (front is None || last >= strength(options[front->0].value)) {
            Some(options.len() - 1)
        } else {
            front
        }
    }
}

/// The position of the first row of a strength.
pub open spec fn first_at(options: Seq<ReasoningEffortOption>, rank: int) -> Option<int>
    decreases options.len(),
{
    if options.len() == 0 {
        None
    } else {
        match first_at(options.drop_last(), rank) {
            Some(i) => Some(i),
            None => if strength(options.last().value) == rank {
                Some(options.len() - 1)
            } else {
                None
            },
        }
    }
}

/// The position of the first row that is the default.
pub open spec fn first_default(options: Seq<ReasoningEffortOption>) -> Option<int>
    decreases options.len(),
{
    if options.len() == 0 {
        None
    } else {
        match first_default(options.drop_last()) {
            Some(i) => Some(i),
            None => if options.last().default {
                Some(options.len() - 1)
            } else {
                None
            },
        }
    }
}

/// The effort that a step starts from: the current one, else the default.
pub open spec fn effective_effort(
    options: Seq<ReasoningEffortOption>,
    current: Option<ReasoningEffort>,
) -> Option<ReasoningEffort> {
    match current {
        Some(effort) => Some(effort),
        None => match first_default(options) {
            Some(i) => Some(options[i].value),
            None => None,
        },
    }
}

/// The position of the row that a step leads to.
pub open spec fn step_target(
    options: Seq<ReasoningEffortOption>,
    current: Option<ReasoningEffort>,
    raise: bool,
) -> Option<int> {
    let strongest = strongest_below(options, 7);
    let weakest = weakest_above(options, -1);
    match effective_effort(options, current) {
        None => if raise {
            strongest
        } else {
            weakest
        },
        Some(from) => {
            let next = if raise {
                weakest_above(options, strength(from))
            } else {
                strongest_below(options, strength(from))
            };
            if next is Some {
                next
            } else if first_at(options, strength(from)) is Some {
                first_at(options, strength(from))
            } else if raise {
                strongest
            } else {
                weakest
            }
        },
    }
}

fn find_weakest_above(options: &[ReasoningEffortOption], floor: i8) -> (r: Option<usize>)
    ensures
        match r {
            Some(i) => i < options@.len() && weakest_above(options@, floor as int) == Some(i as int),
            None => weakest_above(options@, floor as int) is None,
        },
{
    let mut best: Option<usize> = None;
    let mut i: usize = 0;
    assert(options@.take(0) =~= Seq::<ReasoningEffortOption>::empty());
    while i < options.len()
        invariant
            i <= options@.len(),
            match best {
                Some(k) => k < i && weakest_above(options@.take(i as int), floor as int) == Some(
                    k as int,
                ),
                None => weakest_above(options@.take(i as int), floor as int) is None,
            },
        decreases options@.len() - i,
    {
        assert(options@.take(i + 1).drop_last() =~= options@.take(i as int));
        let rank: i8 = effort_strength(options[i].value) as i8;
        let better = match best {
            Some(k) => rank < effort_strength(options[k].value) as i8,
            None => true,
        };
        if rank > floor && better {
            best = Some(i);
        }
        i += 1;
    }
    assert(options@.take(i as int) =~= options@);
    best
}

fn find_strongest_below(options: &[ReasoningEffortOption], ceiling: i8) -> (r: Option<usize>)
    ensures
        match r {
            Some(i) => i < options@.len() && strongest_below(options@, ceiling as int) == Some(
                i as int,
            ),
            None => strongest_below(options@, ceiling as int) is None,
        },
{
    let mut best: Option<usize> = None;
    let mut i: usize = 0;
    assert(options@.take(0) =~= Seq::<ReasoningEffortOption>::empty());
    while i < options.len()
        invariant
            i <= options@.len(),
            match best {
                Some(k) => k < i && strongest_below(options@.take(i as int), ceiling as int)
                    == Some(k as int),
                None => strongest_below(options@.take(i as int), ceiling as int) is None,
            },
        decreases options@.len() - i,
    {
        assert(options@.take(i + 1).drop_last() =~= options@.take(i as int));
        let rank: i8 = effort_strength(options[i].value) as i8;
        let better = match best {
            Some(k) => rank >= effort_strength(options[k].value) as i8,
            None => true,
        };
        if rank < ceiling && better {
            best = Some(i);
        }
        i += 1;
    }
    assert(options@.take(i as int) =~= options@);
    best
}

fn option_at_strength(options: &[ReasoningEffortOption], rank: u8) -> (r: Option<usize>)
    ensures
        match r {
            Some(i) => i < options@.len() && first_at(options@, rank as int) == Some(i as int),
            None => first_at(options@, rank as int) is None,
        },
{
    let mut i: usize = 0;
    assert(options@.take(0) =~= Seq::<ReasoningEffortOption>::empty());
    while i < options.len()
        invariant
            i <= options@.len(),
            first_at(options@.take(i as int), rank as int) is None,
        decreases options@.len() - i,
    {
        assert(options@.take(i + 1).drop_last() =~= options@.take(i as int));
        if effort_strength(options[i].value) == rank {
            proof {
                lemma_first_at_stays(options@, rank as int, i + 1);
            }
            return Some(i);
        }
        i += 1;
    }
    assert(options@.take(i as int) =~= options@);
    None
}

proof fn lemma_first_at_stays(options: Seq<ReasoningEffortOption>, rank: int, n: int)
    requires
        0 <= n <= options.len(),
        first_at(options.take(n), rank) is Some,
    ensures
        first_at(options, rank) == first_at(options.take(n), rank),
    decreases options.len() - n,
{
    if n == options.len() {
        assert(options.take(n) =~= options);
    } else {
        assert(options.take(n + 1).drop_last() =~= options.take(n));
        lemma_first_at_stays(options, rank, n + 1);
    }
}

/// The position of the first row that is the default.
pub fn default_option(options: &[ReasoningEffortOption]) -> (r: Option<usize>)
    ensures
        match r {
            Some(i) => i < options@.len() && first_default(options@) == Some(i as int),
            None => first_default(options@) is None,
        },
{
    let mut i: usize = 0;
    assert(options@.take(0) =~= Seq::<ReasoningEffortOption>::empty());
    while i < options.len()
        invariant
            i <= options@.len(),
            first_default(options@.take(i as int)) is None,
        decreases options@.len() - i,
    {
        assert(options@.take(i + 1).drop_last() =~= options@.take(i as int));
        if options[i].default {
            proof {
                lemma_first_default_stays(options@, i + 1);
            }
            return Some(i);
        }
        i += 1;
    }
    assert(options@.take(i as int) =~= options@);
    None
}

proof fn lemma_first_default_stays(options: Seq<ReasoningEffortOption>, n: int)
    requires
        0 <= n <= options.len(),
        first_default(options.take(n)) is Some,
    ensures
        first_default(options) == first_default(options.take(n)),
    decreases options.len() - n,
{
    if n == options.len() {
        assert(options.take(n) =~= options);
    } else {
        assert(options.take(n + 1).drop_last() =~= options.take(n));
        lemma_first_default_stays(options, n + 1);
    }
}

/// The row that a step leads to, by strength and not by the order of the menu:
/// the nearest stronger or weaker one, and none beyond the strongest and weakest.
/// Without a current effort the default counts as such; without a default either,
/// a step up leads to the strongest row and a step down to the weakest.
pub fn step_effort_option(
    options: &[ReasoningEffortOption],
    current: Option<ReasoningEffort>,
    raise: bool,
) -> (r: Option<&ReasoningEffortOption>)
    ensures
        match r {
            Some(option) => step_target(options@, current, raise) matches Some(i) && 0 <= i
                < options@.len() && *option == options@[i],
            None => options@.len() == 0 && step_target(options@, current, raise) is None,
        },
{
    let effective = match current {
        Some(effort) => Some(effort),
        None => match default_option(options) {
            Some(i) => Some(options[i].value),
            None => None,
        },
    };
    proof {
        lemma_weakest_above(options@, -1);
        lemma_strongest_below(options@, 7);
    }
    let strongest = find_strongest_below(options, 7);
    let weakest = find_weakest_above(options, -1);
    let target = match effective {
        None => if raise {
            strongest
        } else {
            weakest
        },
        Some(from) => {
            let rank: u8 = effort_strength(from);
            let next = if raise {
                find_weakest_above(options, rank as i8)
            } else {
                find_strongest_below(options, rank as i8)
            };
            match (next, option_at_strength(options, rank)) {
                (Some(i), _) => Some(i),
                (None, Some(i)) => Some(i),
                (None, None) => if raise {
                    strongest
                } else {
                    weakest
                },
            }
        },
    };
    match target {
        Some(i) => Some(&options[i]),
        None => None,
    }
}

proof fn lemma_weakest_above(options: Seq<ReasoningEffortOption>, floor: int)
    ensures
        match weakest_above(options, floor) {
            Some(i) => 0 <= i < options.len() && strength(options[i].value) > floor && (forall|j: int|
                0 <= j < options.len() && strength((#[trigger] options[j]).value) > floor
                    ==> strength(options[i].value) <= strength(options[j].value)),
            None => forall|j: int|
                0 <= j < options.len() ==> strength((#[trigger] options[j]).value) <= floor,
        },
    decreases options.len(),
{
    if options.len() > 0 {
        let front = options.drop_last();
        lemma_weakest_above(front, floor);
        assert(forall|j: int| 0 <= j < front.len() ==> front[j] == #[trigger] options[j]);
    }
}

proof fn lemma_strongest_below(options: Seq<ReasoningEffortOption>, ceiling: int)
    ensures
        match strongest_below(options, ceiling) {
            Some(i) => 0 <= i < options.len() && strength(options[i].value) < ceiling && (forall|
                j: int,
            |
                0 <= j < options.len() && strength((#[trigger] options[j]).value) < ceiling
                    ==> strength(options[i].value) >= strength(options[j].value)),
            None => forall|j: int|
                0 <= j < options.len() ==> strength((#[trigger] options[j]).value) >= ceiling,
        },
    decreases options.len(),
{
    if options.len() > 0 {
        let front = options.drop_last();
        lemma_strongest_below(front, ceiling);
        assert(forall|j: int| 0 <= j < front.len() ==> front[j] == #[trigger] options[j]);
    }
}

proof fn lemma_first_at(options: Seq<ReasoningEffortOption>, rank: int)
    ensures
        match first_at(options, rank) {
            Some(i) => 0 <= i < options.len() && strength(options[i].value) == rank,
            None => forall|j: int|
                0 <= j < options.len() ==> strength((#[trigger] options[j]).value) != rank,
        },
    decreases options.len(),
{
    if options.len() > 0 {
        let front = options.drop_last();
        lemma_first_at(front, rank);
        assert(forall|j: int| 0 <= j < front.len() ==> front[j] == #[trigger] options[j]);
    }
}

/// A step up from an effort leads to the weakest of the rows that are stronger.
/// Where no row is stronger it leads to a row as strong as the effort, and where
/// there is none either, to the strongest row.
pub proof fn law_raise_leads_to_nearest_stronger(
    options: Seq<ReasoningEffortOption>,
    current: Option<ReasoningEffort>,
    from: ReasoningEffort,
)
    requires
        options.len() > 0,
        effective_effort(options, current) == Some(from),
    ensures
        step_target(options, current, true) matches Some(i) && 0 <= i < options.len() && {
            let rank = strength(options[i].value);
            if exists|j: int| 0 <= j < options.len() && strength((#[trigger] options[j]).value)
                > strength(from) {
                rank > strength(from) && (forall|j: int|
                    0 <= j < options.len() && strength((#[trigger] options[j]).value) > strength(
                        from,
                    ) ==> rank <= strength(options[j].value))
            } else if exists|j: int| 0 <= j < options.len() && strength((#[trigger] options[j]).value)
                == strength(from) {
                rank == strength(from)
            } else {
                forall|j: int|
                    0 <= j < options.len() ==> strength((#[trigger] options[j]).value) <= rank
            }
        },
{
    lemma_weakest_above(options, strength(from));
    lemma_first_at(options, strength(from));
    lemma_strongest_below(options, 7);
    assert(strength(options[0].value) < 7);
}

/// A step down from an effort leads to the strongest of the rows that are weaker.
/// Where no row is weaker it leads to a row as strong as the effort, and where
/// there is none either, to the weakest row.
pub proof fn law_lower_leads_to_nearest_weaker(
    options: Seq<ReasoningEffortOption>,
    current: Option<ReasoningEffort>,
    from: ReasoningEffort,
)
    requires
        options.len() > 0,
        effective_effort(options, current) == Some(from),
    ensures
        step_target(options, current, false) matches Some(i) && 0 <= i < options.len() && {
            let rank = strength(options[i].value);
            if exists|j: int| 0 <= j < options.len() && strength((#[trigger] options[j]).value)
                < strength(from) {
                rank < strength(from) && (forall|j: int|
                    0 <= j < options.len() && strength((#[trigger] options[j]).value) < strength(
                        from,
                    ) ==> rank >= strength(options[j].value))
            } else if exists|j: int| 0 <= j < options.len() && strength((#[trigger] options[j]).value)
                == strength(from) {
                rank == strength(from)
            } else {
                forall|j: int|
                    0 <= j < options.len() ==> strength((#[trigger] options[j]).value) >= rank
            }
        },
{
    lemma_strongest_below(options, strength(from));
    lemma_first_at(options, strength(from));
    lemma_weakest_above(options, -1);
    assert(strength(options[0].value) > -1);
}

/// With neither a current effort nor a default, a step up leads to the strongest
/// row and a step down to the weakest.
pub proof fn law_step_from_nowhere(options: Seq<ReasoningEffortOption>, raise: bool)
    requires
        options.len() > 0,
        effective_effort(options, None) is None,
    ensures
        step_target(options, None, raise) matches Some(i) && 0 <= i < options.len() && forall|j: int|
            0 <= j < options.len() ==> if raise {
                strength((#[trigger] options[j]).value) <= strength(options[i].value)
            } else {
                strength(options[j].value) >= strength(options[i].value)
            },
{
    lemma_strongest_below(options, 7);
    lemma_weakest_above(options, -1);
    assert(strength(options[0].value) < 7);
    assert(strength(options[0].value) > -1);
}

/// Whether a menu has a row for an effort.
pub open spec fn offers(options: Seq<ReasoningEffortOption>, effort: ReasoningEffort) -> bool {
    exists|j: int| 0 <= j < options.len() && (#[trigger] options[j]).value == effort
}

proof fn lemma_first_default(options: Seq<ReasoningEffortOption>)
    ensures
        match first_default(options) {
            Some(i) => 0 <= i < options.len() && options[i].default,
            None => forall|j: int| 0 <= j < options.len() ==> !(#[trigger] options[j]).default,
        },
    decreases options.len(),
{
    if options.len() > 0 {
        let front = options.drop_last();
        lemma_first_default(front);
        assert(forall|j: int| 0 <= j < front.len() ==> front[j] == #[trigger] options[j]);
    }
}

/// From the same start, a step leads to the same effort in two menus that offer
/// the same efforts.
proof fn lemma_step_by_efforts(
    options: Seq<ReasoningEffortOption>,
    shuffled: Seq<ReasoningEffortOption>,
    current: Option<ReasoningEffort>,
    raise: bool,
)
    requires
        options.len() > 0,
        shuffled.len() > 0,
        forall|e: ReasoningEffort| #[trigger] offers(options, e) == offers(shuffled, e),
        effective_effort(options, current) == effective_effort(shuffled, current),
    ensures
        step_target(options, current, raise) matches Some(i) && step_target(
            shuffled,
            current,
            raise,
        ) matches Some(k) && 0 <= i < options.len() && 0 <= k < shuffled.len() && options[i].value
            == shuffled[k].value,
{
    match effective_effort(options, current) {
        Some(from) => {
            if raise {
                law_raise_leads_to_nearest_stronger(options, current, from);
                law_raise_leads_to_nearest_stronger(shuffled, current, from);
            } else {
                law_lower_leads_to_nearest_weaker(options, current, from);
                law_lower_leads_to_nearest_weaker(shuffled, current, from);
            }
        },
        None => {
            law_step_from_nowhere(options, raise);
            law_step_from_nowhere(shuffled, raise);
        },
    }
    let i = step_target(options, current, raise)->0;
    let k = step_target(shuffled, current, raise)->0;
    assert(offers(options, options[i].value));
    assert(offers(shuffled, shuffled[k].value) && offers(options, shuffled[k].value));
    let there = choose|m: int|
        0 <= m < shuffled.len() && (#[trigger] shuffled[m]).value == options[i].value;
    let here = choose|m: int|
        0 <= m < options.len() && (#[trigger] options[m]).value == shuffled[k].value;
    assert(shuffled[there].value == options[i].value);
    assert(options[here].value == shuffled[k].value);
    assert(strength(options[i].value) == strength(shuffled[k].value));
}

/// Whether two menus have the same rows, in whatever order.
pub open spec fn same_rows(
    options: Seq<ReasoningEffortOption>,
    shuffled: Seq<ReasoningEffortOption>,
) -> bool {
    forall|row: EffortOptionView| #[trigger]
        menu(options).contains(row) <==> menu(shuffled).contains(row)
}

/// Whether all the rows that are the default have the same effort.
pub open spec fn defaults_agree(options: Seq<ReasoningEffortOption>) -> bool {
    forall|i: int, j: int|
        0 <= i < options.len() && 0 <= j < options.len() && (#[trigger] options[i]).default && (
        #[trigger] options[j]).default ==> options[i].value == options[j].value
}

/// Whether each effort has one row at most.
pub open spec fn efforts_differ(options: Seq<ReasoningEffortOption>) -> bool {
    forall|i: int, j: int|
        0 <= i < j < options.len() ==> (#[trigger] options[i]).value != (
        #[trigger] options[j]).value
}

/// A step leads to a row of the same effort in any two menus of the same rows, in
/// whatever order they are, and to the very same row where each effort has only
/// one. Without a current effort the rows that are the default have to agree: of
/// several, the first one counts.
pub proof fn law_step_ignores_order(
    options: Seq<ReasoningEffortOption>,
    shuffled: Seq<ReasoningEffortOption>,
    current: Option<ReasoningEffort>,
    raise: bool,
)
    requires
        options.len() > 0,
        same_rows(options, shuffled),
        current is Some || defaults_agree(options),
    ensures
        step_target(options, current, raise) matches Some(i) && step_target(
            shuffled,
            current,
            raise,
        ) matches Some(k) && 0 <= i < options.len() && 0 <= k < shuffled.len() && options[i].value
            == shuffled[k].value && (efforts_differ(options) ==> options[i]@ == shuffled[k]@),
{
    lemma_row_there(options, shuffled, 0);
    assert forall|e: ReasoningEffort| #[trigger] offers(options, e) == offers(shuffled, e) by {
        if offers(options, e) {
            let j = choose|j: int| 0 <= j < options.len() && (#[trigger] options[j]).value == e;
            let k = lemma_row_there(options, shuffled, j);
            assert(shuffled[k].value == e);
        }
        if offers(shuffled, e) {
            let k = choose|k: int| 0 <= k < shuffled.len() && (#[trigger] shuffled[k]).value == e;
            let j = lemma_row_there(shuffled, options, k);
            assert(options[j].value == e);
        }
    }
    lemma_first_default(options);
    lemma_first_default(shuffled);
    if current is None {
        if let Some(j) = first_default(options) {
            let k = lemma_row_there(options, shuffled, j);
            assert(shuffled[k].default);
        }
        if let Some(k) = first_default(shuffled) {
            let j = lemma_row_there(shuffled, options, k);
            assert(options[j].default && options[j].value == shuffled[k].value);
        }
    }
    lemma_step_by_efforts(options, shuffled, current, raise);
    let i = step_target(options, current, raise)->0;
    let k = step_target(shuffled, current, raise)->0;
    let j = lemma_row_there(shuffled, options, k);
    assert(efforts_differ(options) ==> i == j) by {
        if i < j {
            assert(options[i].value == options[j].value);
        } else if j < i {
            assert(options[j].value == options[i].value);
        }
    }
}

/// Where a row of one menu stands in another one of the same rows.
proof fn lemma_row_there(
    options: Seq<ReasoningEffortOption>,
    shuffled: Seq<ReasoningEffortOption>,
    j: int,
) -> (k: int)
    requires
        0 <= j < options.len(),
        same_rows(options, shuffled),
    ensures
        0 <= k < shuffled.len(),
        shuffled[k]@ == options[j]@,
        same_rows(shuffled, options),
{
    assert(menu(options)[j] == options[j]@);
    assert(menu(options).contains(options[j]@));
    assert(menu(shuffled).contains(options[j]@));
    let k = choose|k: int| 0 <= k < menu(shuffled).len() && menu(shuffled)[k] == options[j]@;
    assert(menu(shuffled)[k] == shuffled[k]@);
    k
}

/// Efforts are ordered from none to the maximum, and no two are equally strong.
pub proof fn law_efforts_by_strength(a: ReasoningEffort, b: ReasoningEffort)
    ensures
        strength(ReasoningEffort::Off) < strength(ReasoningEffort::Minimal) < strength(
            ReasoningEffort::Low,
        ) < strength(ReasoningEffort::Medium) < strength(ReasoningEffort::High) < strength(
            ReasoningEffort::Xhigh,
        ) < strength(ReasoningEffort::Max),
        strength(a) == strength(b) <==> a == b,
{
}

/// The built-in menu goes from the strongest effort to the weakest, and each row
/// goes by the name of its effort; none is the default.
pub proof fn law_builtin_menu_is_strongest_first(i: int, j: int)
    requires
        0 <= i < j < effort_levels().len(),
    ensures
        strength(effort_levels()[i]) > strength(effort_levels()[j]),
        legacy_row(effort_levels()[i]).id == effort_levels()[i].name(),
        legacy_row(effort_levels()[i]).value == effort_levels()[i],
        !legacy_row(effort_levels()[i]).default,
{
}

/// A step starts from the current effort, whatever the default is; without one it
/// starts from the first row that is the default.
pub proof fn law_step_starts_from_current(
    options: Seq<ReasoningEffortOption>,
    current: ReasoningEffort,
    k: int,
)
    ensures
        effective_effort(options, Some(current)) == Some(current),
        0 <= k < options.len() && options[k].default && (forall|j: int|
            0 <= j < k ==> !(#[trigger] options[j]).default) ==> effective_effort(options, None)
            == Some(options[k].value),
        (forall|j: int| 0 <= j < options.len() ==> !(#[trigger] options[j]).default)
            ==> effective_effort(options, None) is None,
{
    lemma_first_default(options);
    lemma_first_default_is_first(options);
    if let Some(i) = first_default(options) {
        if 0 <= k < options.len() && options[k].default && (forall|j: int|
            0 <= j < k ==> !(#[trigger] options[j]).default) {
            assert(i == k) by {
                if i < k {
                    assert(!options[i].default);
                } else if k < i {
                    assert(!options[k].default);
                }
            }
        }
    }
}

proof fn lemma_first_default_is_first(options: Seq<ReasoningEffortOption>)
    ensures
        first_default(options) matches Some(i) ==> forall|j: int|
            0 <= j < i ==> !(#[trigger] options[j]).default,
    decreases options.len(),
{
    if options.len() > 0 {
        let front = options.drop_last();
        lemma_first_default_is_first(front);
        lemma_first_default(front);
        assert(forall|j: int| 0 <= j < front.len() ==> front[j] == #[trigger] options[j]);
    }
}

/// Of rows of the same effort a step up leads to the first one and a step down to
/// the last one, where there is a stronger or a weaker row at all.
pub proof fn law_step_among_equal_rows(
    options: Seq<ReasoningEffortOption>,
    current: ReasoningEffort,
    j: int,
)
    requires
        0 <= j < options.len(),
    ensures
        step_target(options, Some(current), true) matches Some(i) ==> (strength(options[i].value)
            > strength(current) && options[j].value == options[i].value ==> i <= j),
        step_target(options, Some(current), false) matches Some(i) ==> (strength(options[i].value)
            < strength(current) && options[j].value == options[i].value ==> j <= i),
{
    lemma_weakest_above(options, strength(current));
    lemma_strongest_below(options, strength(current));
    lemma_weakest_is_first(options, strength(current));
    lemma_strongest_is_last(options, strength(current));
    lemma_first_at(options, strength(current));
    lemma_strongest_below(options, 7);
    lemma_weakest_above(options, -1);
}

proof fn lemma_weakest_is_first(options: Seq<ReasoningEffortOption>, floor: int)
    ensures
        weakest_above(options, floor) matches Some(i) ==> forall|j: int|
            0 <= j < options.len() && (#[trigger] options[j]).value == options[i].value ==> i <= j,
    decreases options.len(),
{
    if options.len() > 0 {
        let front = options.drop_last();
        lemma_weakest_is_first(front, floor);
        lemma_weakest_above(front, floor);
        assert(forall|j: int| 0 <= j < front.len() ==> front[j] == #[trigger] options[j]);
    }
}

proof fn lemma_strongest_is_last(options: Seq<ReasoningEffortOption>, ceiling: int)
    ensures
        strongest_below(options, ceiling) matches Some(i) ==> forall|j: int|
            0 <= j < options.len() && (#[trigger] options[j]).value == options[i].value ==> j <= i,
    decreases options.len(),
{
    if options.len() > 0 {
        let front = options.drop_last();
        lemma_strongest_is_last(front, ceiling);
        lemma_strongest_below(front, ceiling);
        assert(forall|j: int| 0 <= j < front.len() ==> front[j] == #[trigger] options[j]);
    }
}

/// The suggestion for a row shows its label, marked exactly if the row is active,
/// and its description; suggestions sort in the order of the rows, and each is
/// found by what choosing it inserts.
pub proof fn law_suggestions_keep_the_order(
    item: ArgItem,
    option: ReasoningEffortOption,
    i: int,
    active: bool,
    later: ArgItem,
    other: ReasoningEffortOption,
    j: int,
    other_active: bool,
)
    requires
        0 <= i < j < MAX_ROWS,
        is_effort_item(item, option, i, active),
        is_effort_item(later, other, j, other_active),
    ensures
        item.match_text@.len() > 0 && later.match_text@.len() > 0,
        item.match_text@[0] < later.match_text@[0],
        item.match_text@.skip(2) == item.insert_text@,
        active ==> item.display@ == option.label@ + " (active)"@,
        !active ==> item.display@ == option.label@,
        option.description matches Some(text) ==> item.description@ == text@,
        option.description is None ==> item.description@.len() == 0,
{
    reveal_strlit(" ");
    reveal_strlit("");
    assert(" "@.len() == 1);
    assert(item.match_text@.skip(2) =~= item.insert_text@);
    assert(option.label@ + ""@ =~= option.label@);
}

/// What the rows of the built-in menu say of their efforts.
pub proof fn law_builtin_rows_describe_efforts(effort: ReasoningEffort)
    ensures
        legacy_row(effort).description == Some(
            (match effort {
                ReasoningEffort::Off => "No reasoning"@,
                ReasoningEffort::Minimal => "Minimal reasoning"@,
                ReasoningEffort::Low => "Faster, lighter reasoning"@,
                ReasoningEffort::Medium => "Balanced reasoning"@,
                ReasoningEffort::High => "Heavy reasoning"@,
                ReasoningEffort::Xhigh => "Extended reasoning"@,
                ReasoningEffort::Max => "Maximum reasoning"@,
            }),
        ),
{
}

} // verus!
