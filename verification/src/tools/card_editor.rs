//! Pure state of the card editor: edit states, card changes and screens

use vstd::prelude::*;

verus! {

/// Digimon card edit state
#[derive(PartialEq, Eq, Clone, Hash, Debug)]
pub struct DigimonEditState {
    pub name: String,
    pub move_circle_name: String,
    pub move_triangle_name: String,
    pub move_cross_name: String,
    pub effect_description: [String; 4],
}

/// Item card edit state
#[derive(PartialEq, Eq, Clone, Hash, Debug)]
pub struct ItemEditState {
    pub name: String,
    pub effect_description: [String; 4],
}

/// Digivolve card edit state
#[derive(PartialEq, Eq, Clone, Hash, Debug)]
pub struct DigivolveEditState {
    pub name: String,
    pub effect_description: [String; 4],
}

/// Helper state for managing each card
#[derive(PartialEq, Eq, Clone, Hash, Debug)]
pub enum CardEditState {
    Digimon(DigimonEditState),
    Item(ItemEditState),
    Digivolve(DigivolveEditState),
}

impl CardEditState {
    /// Returns this card as digimon
    pub fn as_digimon_mut(&mut self) -> (res: Option<&mut DigimonEditState>)
        ensures
            *old(self) is Digimon <==> res is Some,
            *old(self) is Digimon ==> *res->Some_0 == (*old(self))->Digimon_0
                && *final(self) == CardEditState::Digimon(*final(res->Some_0)),
            !(*old(self) is Digimon) ==> *final(self) == *old(self),
    {
        match self {
            CardEditState::Digimon(state) => Some(state),
            _ => None,
        }
    }

    /// Returns this card as an item
    pub fn as_item_mut(&mut self) -> (res: Option<&mut ItemEditState>)
        ensures
            *old(self) is Item <==> res is Some,
            *old(self) is Item ==> *res->Some_0 == (*old(self))->Item_0
                && *final(self) == CardEditState::Item(*final(res->Some_0)),
            !(*old(self) is Item) ==> *final(self) == *old(self),
    {
        match self {
            CardEditState::Item(state) => Some(state),
            _ => None,
        }
    }

    /// Returns this card as a digivolve
    pub fn as_digivolve_mut(&mut self) -> (res: Option<&mut DigivolveEditState>)
        ensures
            *old(self) is Digivolve <==> res is Some,
            *old(self) is Digivolve ==> *res->Some_0 == (*old(self))->Digivolve_0
                && *final(self) == CardEditState::Digivolve(*final(res->Some_0)),
            !(*old(self) is Digivolve) ==> *final(self) == *old(self),
    {
        match self {
            CardEditState::Digivolve(state) => Some(state),
            _ => None,
        }
    }
}

/// Digimon changes
#[derive(PartialEq, Eq, Clone, Copy, Default, Hash, Debug)]
pub struct DigimonChanges {
    pub speciality: bool,
    pub level: bool,
    pub hp: bool,
    pub dp_cost: bool,
    pub dp_give: bool,
    pub move_circle: bool,
    pub move_triangle: bool,
    pub move_cross: bool,
    pub cross_move_effect: bool,
    pub effect_description: [bool; 4],
    pub effect_arrow_color: bool,
    pub effect_conditions: [bool; 2],
    pub effects: [bool; 3],
}

/// Item changes
#[derive(PartialEq, Eq, Clone, Copy, Default, Hash, Debug)]
pub struct ItemChanges {
    pub effect_description: [bool; 4],
    pub effect_arrow_color: bool,
    pub effect_conditions: [bool; 2],
    pub effects: [bool; 3],
}

/// Digivolve changes
#[derive(PartialEq, Eq, Clone, Copy, Default, Hash, Debug)]
pub struct DigivolveChanges {
    pub effect_description: [bool; 4],
    pub effect: bool,
}

/// Card changes
#[derive(PartialEq, Eq, Clone, Copy, Hash, Debug)]
pub enum CardChanges {
    /// Only in lhs
    OnlyInLhs { id: usize },
    /// Only in rhs
    OnlyInRhs { id: usize },
    /// Equal
    Equal { lhs_id: usize, rhs_id: usize },
    /// Different type
    DifferentType { lhs_id: usize, rhs_id: usize },
    /// Different digimon
    DifferentDigimon { lhs_id: usize, rhs_id: usize, changes: DigimonChanges },
    /// Different item
    DifferentItem { lhs_id: usize, rhs_id: usize, changes: ItemChanges },
    /// Different digivolve
    DifferentDigivolve { lhs_id: usize, rhs_id: usize, changes: DigivolveChanges },
}

/// Replace string screen
pub struct ReplaceStrScreen {
    /// String to search
    search: String,
    /// Replace
    replace: String,
    /// Names
    names: bool,
    /// Effect descriptions
    effect_descriptions: bool,
}

impl ReplaceStrScreen {
    /// The string searched for
    pub closed spec fn search(&self) -> Seq<char> {
        self.search@
    }

    /// The string it is replaced with
    pub closed spec fn replacement(&self) -> Seq<char> {
        self.replace@
    }

    /// Whether card names are searched
    pub closed spec fn searches_names(&self) -> bool {
        self.names
    }

    /// Whether effect descriptions are searched
    pub closed spec fn searches_effect_descriptions(&self) -> bool {
        self.effect_descriptions
    }

    /// Creates a new replace screen: nothing to search for yet, in both names
    /// and effect descriptions
    pub fn new() -> (res: Self)
        ensures
            res.search() == Seq::<char>::empty(),
            res.replacement() == Seq::<char>::empty(),
            res.searches_names(),
            res.searches_effect_descriptions(),
    {
        ReplaceStrScreen { search: String::new(), replace: String::new(), names: true, effect_descriptions: true }
    }
}

/// Swap screen
pub struct SwapScreen {
    /// Left idx
    lhs_idx: usize,
    /// Right idx
    rhs_idx: usize,
}

impl SwapScreen {
    /// The index of the left card
    pub closed spec fn lhs(&self) -> usize {
        self.lhs_idx
    }

    /// The index of the right card
    pub closed spec fn rhs(&self) -> usize {
        self.rhs_idx
    }

    /// Creates a new swap screen
    pub fn new(lhs_idx: usize, rhs_idx: usize) -> (res: Self)
        ensures
            res.lhs() == lhs_idx,
            res.rhs() == rhs_idx,
    {
        SwapScreen { lhs_idx, rhs_idx }
    }
}

} // verus!
