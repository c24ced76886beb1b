use grok_providers::efforts::{ReasoningEffort, ReasoningEffortOption};
use grok_providers::slash::effort_levels::{
    build_effort_arg_items, effort_description, effort_strength, legacy_effort_options,
    step_effort_option,
};

fn opt(id: &str, value: ReasoningEffort, default: bool) -> ReasoningEffortOption {
    ReasoningEffortOption {
        id: id.to_string(),
        value,
        label: id.to_string(),
        description: None,
        default,
    }
}

fn opts(ids: &[&str]) -> Vec<ReasoningEffortOption> {
    ids.iter()
        .map(|id| {
            let value = ReasoningEffort::parse(id).expect("canonical effort id");
            opt(id, value, false)
        })
        .collect()
}

fn id_of(
    options: &[ReasoningEffortOption],
    current: Option<ReasoningEffort>,
    raise: bool,
) -> Option<&str> {
    step_effort_option(options, current, raise).map(|o| o.id.as_str())
}

#[test]
fn empty_returns_none() {
    assert!(step_effort_option(&[], Some(ReasoningEffort::High), true).is_none());
    assert!(step_effort_option(&[], None, false).is_none());
}

#[test]
fn strongest_first_raise_and_lower() {
    let options = opts(&["xhigh", "high", "medium", "low"]);
    assert_eq!(id_of(&options, Some(ReasoningEffort::Medium), true), Some("high"));
    assert_eq!(id_of(&options, Some(ReasoningEffort::High), true), Some("xhigh"));
    assert_eq!(id_of(&options, Some(ReasoningEffort::Xhigh), true), Some("xhigh"));
    assert_eq!(id_of(&options, Some(ReasoningEffort::High), false), Some("medium"));
    assert_eq!(id_of(&options, Some(ReasoningEffort::Low), false), Some("low"));
}

#[test]
fn weakest_first_raise_moves_to_stronger_not_list_neighbor() {
    let options = opts(&["low", "medium", "high", "xhigh"]);
    assert_eq!(
        id_of(&options, Some(ReasoningEffort::Medium), true),
        Some("high"),
        "raise must ignore weakest-first order"
    );
    assert_eq!(id_of(&options, Some(ReasoningEffort::High), false), Some("medium"));
    assert_eq!(id_of(&options, Some(ReasoningEffort::Low), true), Some("medium"));
    assert_eq!(id_of(&options, Some(ReasoningEffort::Xhigh), false), Some("high"));
}

#[test]
fn none_high_menu_steps_semantically() {
    let options = opts(&["none", "high"]);
    assert_eq!(id_of(&options, Some(ReasoningEffort::Off), true), Some("high"));
    assert_eq!(id_of(&options, Some(ReasoningEffort::High), false), Some("none"));
    assert_eq!(
        id_of(&options, Some(ReasoningEffort::High), true),
        Some("high"),
        "clamp at strongest offered"
    );
    assert_eq!(
        id_of(&options, Some(ReasoningEffort::Off), false),
        Some("none"),
        "clamp at weakest offered"
    );
    // Current not on the menu: nearest stronger / weaker among offered.
    assert_eq!(id_of(&options, Some(ReasoningEffort::Medium), true), Some("high"));
    assert_eq!(id_of(&options, Some(ReasoningEffort::Medium), false), Some("none"));
}

#[test]
fn remapped_ids_are_preserved() {
    let options = vec![
        opt("deep", ReasoningEffort::Xhigh, false),
        opt("high", ReasoningEffort::High, false),
    ];
    assert_eq!(id_of(&options, Some(ReasoningEffort::Xhigh), false), Some("high"));
    assert_eq!(id_of(&options, Some(ReasoningEffort::High), true), Some("deep"));
}

#[test]
fn remapped_ids_with_weakest_first_order() {
    let options = vec![
        opt("high", ReasoningEffort::High, false),
        opt("deep", ReasoningEffort::Xhigh, false),
    ];
    assert_eq!(id_of(&options, Some(ReasoningEffort::High), true), Some("deep"));
    assert_eq!(id_of(&options, Some(ReasoningEffort::Xhigh), false), Some("high"));
}

#[test]
fn absent_current_uses_default_as_effective() {
    let options = vec![
        opt("low", ReasoningEffort::Low, false),
        opt("medium", ReasoningEffort::Medium, true),
        opt("high", ReasoningEffort::High, false),
    ];
    assert_eq!(id_of(&options, None, true), Some("high"));
    assert_eq!(id_of(&options, None, false), Some("low"));
}

#[test]
fn current_overrides_default_flag() {
    let options = vec![
        opt("low", ReasoningEffort::Low, true),
        opt("medium", ReasoningEffort::Medium, false),
        opt("high", ReasoningEffort::High, false),
    ];
    assert_eq!(id_of(&options, Some(ReasoningEffort::Medium), true), Some("high"));
    assert_eq!(id_of(&options, Some(ReasoningEffort::Medium), false), Some("low"));
}

#[test]
fn absent_current_without_default_raise_strongest_lower_weakest() {
    // No session effort and no default flag: jump to the requested end of the
    // strength scale, independent of list order.
    let weakest_first = opts(&["low", "medium", "high", "xhigh"]);
    assert_eq!(id_of(&weakest_first, None, true), Some("xhigh"));
    assert_eq!(id_of(&weakest_first, None, false), Some("low"));
    let strongest_first = opts(&["xhigh", "high", "medium", "low"]);
    assert_eq!(id_of(&strongest_first, None, true), Some("xhigh"));
    assert_eq!(id_of(&strongest_first, None, false), Some("low"));
}

#[test]
fn step_off_the_menu_goes_to_its_end() {
    let options = opts(&["medium", "low"]);
    assert_eq!(id_of(&options, Some(ReasoningEffort::Max), true), Some("medium"));
    let strong = opts(&["high", "xhigh"]);
    assert_eq!(id_of(&strong, Some(ReasoningEffort::Off), false), Some("high"));
}

#[test]
fn steps_do_not_depend_on_the_order_of_the_menu() {
    let mut options = vec![
        opt("low", ReasoningEffort::Low, false),
        opt("medium", ReasoningEffort::Medium, true),
        opt("high", ReasoningEffort::High, false),
    ];
    let all = [None, Some(ReasoningEffort::Low), Some(ReasoningEffort::Max)];
    for _ in 0..3 {
        options.rotate_left(1);
        for current in all {
            let up = id_of(&options, current, true);
            assert_eq!(up, Some(if current == all[1] { "medium" } else { "high" }));
            let down = id_of(&options, current, false);
            assert_eq!(down, Some(if current == all[2] { "high" } else { "low" }));
        }
    }
}

#[test]
fn equal_rows_keep_the_order_of_the_menu() {
    let options = vec![
        opt("a", ReasoningEffort::High, false),
        opt("b", ReasoningEffort::High, false),
        opt("c", ReasoningEffort::Low, false),
    ];
    assert_eq!(id_of(&options, Some(ReasoningEffort::Low), true), Some("a"));
    assert_eq!(id_of(&options, Some(ReasoningEffort::Max), false), Some("b"));
    assert_eq!(id_of(&options, Some(ReasoningEffort::High), true), Some("a"));
}

#[test]
fn effort_names_round_trip() {
    let all = [
        ReasoningEffort::Off,
        ReasoningEffort::Minimal,
        ReasoningEffort::Low,
        ReasoningEffort::Medium,
        ReasoningEffort::High,
        ReasoningEffort::Xhigh,
        ReasoningEffort::Max,
    ];
    for (rank, effort) in all.into_iter().enumerate() {
        assert_eq!(ReasoningEffort::parse(effort.as_str()), Some(effort));
        assert_eq!(effort_strength(effort) as usize, rank);
    }
    assert_eq!(ReasoningEffort::parse("High"), None);
}

#[test]
fn legacy_menu_is_strongest_first() {
    let rows = legacy_effort_options();
    let ids: Vec<&str> = rows.iter().map(|r| r.id.as_str()).collect();
    assert_eq!(ids, ["xhigh", "high", "medium", "low"]);
    assert!(rows.iter().all(|r| !r.default && r.label == r.id));
    assert_eq!(rows[0].description.as_deref(), Some("Extended reasoning"));
    assert_eq!(effort_description(ReasoningEffort::Off), "No reasoning");
}

#[test]
fn arg_items_mark_the_active_row_and_sort_like_the_menu() {
    let mut options = opts(&["high", "low"]);
    options[1].description = Some("light".into());
    let items = build_effort_arg_items(&options, Some(ReasoningEffort::Low), true, |o| {
        format!("model {}", o.id)
    });
    assert_eq!(items[0].display, "high");
    assert_eq!(items[0].match_text, "a model high");
    assert_eq!(items[0].insert_text, "model high");
    assert_eq!(items[0].description, "");
    assert_eq!(items[1].display, "low (active)");
    assert_eq!(items[1].match_text, "b model low");
    assert_eq!(items[1].description, "light");
    let unmarked =
        build_effort_arg_items(&options, Some(ReasoningEffort::Low), false, |o| o.id.clone());
    assert_eq!(unmarked[1].display, "low");
}
