//! Reasoning efforts and the menus that offer them.

use vstd::prelude::*;
use vstd::string::*;
use crate::text::{opt_text, text_eq};

verus! {

/// How much a model reasons before it answers.
#[derive(Clone, Copy, Debug, PartialEq, Eq, Structural)]
pub enum ReasoningEffort {
    /// No reasoning at all.
    Off,
    Minimal,
    Low,
    Medium,
    High,
    Xhigh,
    Max,
}

/// One row of a menu of efforts. The id may differ from the name of the effort.
#[derive(Debug)]
pub struct ReasoningEffortOption {
    pub id: String,
    pub value: ReasoningEffort,
    pub label: String,
    pub description: Option<String>,
    pub default: bool,
}

/// The model of [`ReasoningEffortOption`].
#[verifier::ext_equal]
pub struct EffortOptionView {
    pub id: Seq<char>,
    pub value: ReasoningEffort,
    pub label: Seq<char>,
    pub description: Option<Seq<char>>,
    pub default: bool,
}

impl ReasoningEffortOption {
    pub open spec fn view(&self) -> EffortOptionView {
        EffortOptionView {
            id: self.id@,
            value: self.value,
            label: self.label@,
            description: opt_text(self.description),
            default: self.default,
        }
    }
}

/// The models of the rows of a menu.
pub open spec fn menu(options: Seq<ReasoningEffortOption>) -> Seq<EffortOptionView> {
    options.map_values(|o: ReasoningEffortOption| o@)
}

impl Clone for ReasoningEffortOption {
    fn clone(&self) -> (r: Self)
        ensures
            r@ == self@,
    {
        ReasoningEffortOption {
            id: self.id.clone(),
            value: self.value,
            label: self.label.clone(),
            description: self.description.clone(),
            default: self.default,
        }
    }
}

impl ReasoningEffort {
    /// The name of the effort.
    pub open spec fn name(self) -> Seq<char> {
        match self {
            ReasoningEffort::Off => "none"@,
            ReasoningEffort::Minimal => "minimal"@,
            ReasoningEffort::Low => "low"@,
            ReasoningEffort::Medium => "medium"@,
            ReasoningEffort::High => "high"@,
            ReasoningEffort::Xhigh => "xhigh"@,
            ReasoningEffort::Max => "max"@,
        }
    }

    /// The name of the effort.
    pub fn as_str(self) -> (r: &'static str)
        ensures
            r@ == self.name(),
    {
        match self {
            ReasoningEffort::Off => "none",
            ReasoningEffort::Minimal => "minimal",
            ReasoningEffort::Low => "low",
            ReasoningEffort::Medium => "medium",
            ReasoningEffort::High => "high",
            ReasoningEffort::Xhigh => "xhigh",
            ReasoningEffort::Max => "max",
        }
    }

    /// The effort of that name.
    pub fn parse(name: &str) -> (r: Option<ReasoningEffort>)
        ensures
            r == effort_named(name@),
    {
        if text_eq(name, "none") {
            Some(ReasoningEffort::Off)
        } else if text_eq(name, "minimal") {
            Some(ReasoningEffort::Minimal)
        } else if text_eq(name, "low") {
            Some(ReasoningEffort::Low)
        } else if text_eq(name, "medium") {
            Some(ReasoningEffort::Medium)
        } else if text_eq(name, "high") {
            Some(ReasoningEffort::High)
        } else if text_eq(name, "xhigh") {
            Some(ReasoningEffort::Xhigh)
        } else if text_eq(name, "max") {
            Some(ReasoningEffort::Max)
        } else {
            None
        }
    }
}

/// The effort of that name.
pub open spec fn effort_named(name: Seq<char>) -> Option<ReasoningEffort> {
    if name == "none"@ {
        Some(ReasoningEffort::Off)
    } else if name == "minimal"@ {
        Some(ReasoningEffort::Minimal)
    } else if name == "low"@ {
        Some(ReasoningEffort::Low)
    } else if name == "medium"@ {
        Some(ReasoningEffort::Medium)
    } else if name == "high"@ {
        Some(ReasoningEffort::High)
    } else if name == "xhigh"@ {
        Some(ReasoningEffort::Xhigh)
    } else if name == "max"@ {
        Some(ReasoningEffort::Max)
    } else {
        None
    }
}

/// Every effort is read back from its name.
pub proof fn law_effort_names_round_trip(effort: ReasoningEffort)
    ensures
        effort_named(effort.name()) == Some(effort),
{
    reveal_strlit("none");
    reveal_strlit("minimal");
    reveal_strlit("low");
    reveal_strlit("medium");
    reveal_strlit("high");
    reveal_strlit("xhigh");
    reveal_strlit("max");
    assert("none"@.len() == 4 && "minimal"@.len() == 7 && "low"@.len() == 3 && "medium"@.len() == 6
        && "high"@.len() == 4 && "xhigh"@.len() == 5 && "max"@.len() == 3);
    assert("none"@[0] == 'n' && "high"@[0] == 'h' && "low"@[0] == 'l' && "max"@[0] == 'm');
}

/// Each effort goes by one name, and no other name stands for an effort.
pub proof fn law_effort_names(effort: ReasoningEffort, name: Seq<char>)
    ensures
        effort_named(name) == Some(effort) <==> name == (match effort {
            ReasoningEffort::Off => "none"@,
            ReasoningEffort::Minimal => "minimal"@,
            ReasoningEffort::Low => "low"@,
            ReasoningEffort::Medium => "medium"@,
            ReasoningEffort::High => "high"@,
            ReasoningEffort::Xhigh => "xhigh"@,
            ReasoningEffort::Max => "max"@,
        }),
        effort_named(name) matches Some(found) ==> found.name() == name,
{
    law_effort_names_round_trip(effort);
    reveal_strlit("none");
    reveal_strlit("minimal");
    reveal_strlit("low");
    reveal_strlit("medium");
    reveal_strlit("high");
    reveal_strlit("xhigh");
    reveal_strlit("max");
    assert("none"@.len() == 4 && "minimal"@.len() == 7 && "low"@.len() == 3 && "medium"@.len() == 6
        && "high"@.len() == 4 && "xhigh"@.len() == 5 && "max"@.len() == 3);
    assert("none"@[0] == 'n' && "high"@[0] == 'h' && "low"@[0] == 'l' && "max"@[0] == 'm');
}

} // verus!
