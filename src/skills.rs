//! The fixed set of skills and their stored names.
use vstd::prelude::*;

verus! {

/// The eleven skills, each carrying the experience of one classified action.
#[derive(Debug, Clone, Copy, PartialEq, Eq, Structural)]
pub enum Skills {
    VerticalNavigation(i32),
    HorizontalNavigation(i32),
    CodeFlow(i32),
    CameraMovement(i32),
    WindowManagement(i32),
    TextManipulation(i32),
    Clipboard(i32),
    Finesse(i32),
    Search(i32),
    Knowledge(i32),
    Saving(i32),
}

/// Number of skills.
pub const SKILL_COUNT: usize = 11;

/// Position of a skill in the fixed order of the skill table.
pub open spec fn skill_index(s: Skills) -> int {
    match s {
        Skills::VerticalNavigation(_) => 0,
        Skills::HorizontalNavigation(_) => 1,
        Skills::CodeFlow(_) => 2,
        Skills::CameraMovement(_) => 3,
        Skills::WindowManagement(_) => 4,
        Skills::TextManipulation(_) => 5,
        Skills::Clipboard(_) => 6,
        Skills::Finesse(_) => 7,
        Skills::Search(_) => 8,
        Skills::Knowledge(_) => 9,
        Skills::Saving(_) => 10,
    }
}

/// The experience a skill value carries.
pub open spec fn skill_exp(s: Skills) -> int {
    match s {
        Skills::VerticalNavigation(e) => e as int,
        Skills::HorizontalNavigation(e) => e as int,
        Skills::CodeFlow(e) => e as int,
        Skills::CameraMovement(e) => e as int,
        Skills::WindowManagement(e) => e as int,
        Skills::TextManipulation(e) => e as int,
        Skills::Clipboard(e) => e as int,
        Skills::Finesse(e) => e as int,
        Skills::Search(e) => e as int,
        Skills::Knowledge(e) => e as int,
        Skills::Saving(e) => e as int,
    }
}

/// The stored name of the skill at position `k`.
pub open spec fn skill_name(k: int) -> Seq<char> {
    if k == 0 {
        "VerticalNavigation"@
    } else if k == 1 {
        "HorizontalNavigation"@
    } else if k == 2 {
        "CodeFlow"@
    } else if k == 3 {
        "CameraMovement"@
    } else if k == 4 {
        "WindowManagement"@
    } else if k == 5 {
        "TextManipulation"@
    } else if k == 6 {
        "Clipboard"@
    } else if k == 7 {
        "Finesse"@
    } else if k == 8 {
        "Search"@
    } else if k == 9 {
        "Knowledge"@
    } else {
        "Saving"@
    }
}

impl Skills {
    /// The names of all skills, in table order.
    pub fn to_str_vec() -> (r: Vec<String>)
        ensures
            r.len() == SKILL_COUNT,
            forall|k: int| 0 <= k < SKILL_COUNT ==> (#[trigger] r@[k])@ == skill_name(k),
    {
        let mut r: Vec<String> = Vec::new();
        let mut k: usize = 0;
        while k < SKILL_COUNT
            invariant
                k <= SKILL_COUNT,
                r.len() == k,
                forall|j: int| 0 <= j < k ==> (#[trigger] r@[j])@ == skill_name(j),
            decreases SKILL_COUNT - k,
        {
            r.push(Skills::from_index(k, 0).to_str());
            k += 1;
        }
        r
    }

    /// The skill at position `k` of the table, carrying `exp`.
    pub fn from_index(k: usize, exp: i32) -> (r: Skills)
        requires
            k < SKILL_COUNT,
        ensures
            skill_index(r) == k,
            skill_exp(r) == exp,
    {
        match k {
            0 => Skills::VerticalNavigation(exp),
            1 => Skills::HorizontalNavigation(exp),
            2 => Skills::CodeFlow(exp),
            3 => Skills::CameraMovement(exp),
            4 => Skills::WindowManagement(exp),
            5 => Skills::TextManipulation(exp),
            6 => Skills::Clipboard(exp),
            7 => Skills::Finesse(exp),
            8 => Skills::Search(exp),
            9 => Skills::Knowledge(exp),
            _ => Skills::Saving(exp),
        }
    }

    /// Position of this skill in the table.
    pub fn index(&self) -> (r: usize)
        ensures
            r == skill_index(*self),
    {
        match self {
            Skills::VerticalNavigation(_) => 0,
            Skills::HorizontalNavigation(_) => 1,
            Skills::CodeFlow(_) => 2,
            Skills::CameraMovement(_) => 3,
            Skills::WindowManagement(_) => 4,
            Skills::TextManipulation(_) => 5,
            Skills::Clipboard(_) => 6,
            Skills::Finesse(_) => 7,
            Skills::Search(_) => 8,
            Skills::Knowledge(_) => 9,
            Skills::Saving(_) => 10,
        }
    }

    /// The stored name of this skill.
    pub fn to_str(&self) -> (r: String)
        ensures
            r@ == skill_name(skill_index(*self)),
    {
        match self {
            Skills::VerticalNavigation(_) => String::from_str("VerticalNavigation"),
            Skills::HorizontalNavigation(_) => String::from_str("HorizontalNavigation"),
            Skills::CodeFlow(_) => String::from_str("CodeFlow"),
            Skills::CameraMovement(_) => String::from_str("CameraMovement"),
            Skills::WindowManagement(_) => String::from_str("WindowManagement"),
            Skills::TextManipulation(_) => String::from_str("TextManipulation"),
            Skills::Clipboard(_) => String::from_str("Clipboard"),
            Skills::Finesse(_) => String::from_str("Finesse"),
            Skills::Search(_) => String::from_str("Search"),
            Skills::Knowledge(_) => String::from_str("Knowledge"),
            Skills::Saving(_) => String::from_str("Saving"),
        }
    }

    /// The experience this value carries.
    pub fn get_exp_from_skill(&self) -> (r: i32)
        ensures
            r == skill_exp(*self),
    {
        match self {
            Skills::VerticalNavigation(exp)
            | Skills::HorizontalNavigation(exp)
            | Skills::CodeFlow(exp)
            | Skills::CameraMovement(exp)
            | Skills::WindowManagement(exp)
            | Skills::TextManipulation(exp)
            | Skills::Clipboard(exp)
            | Skills::Finesse(exp)
            | Skills::Search(exp)
            | Skills::Knowledge(exp)
            | Skills::Saving(exp) => *exp,
        }
    }
}

} // verus!
