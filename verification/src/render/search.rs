//! The choices that the search form offers.

use vstd::prelude::*;
use crate::api::search::{SearchMode, SearchOrder, SearchRating};

verus! {

/// One choice of a selection: what the reader sees, what the form sends,
/// and whether it is the choice in force.
#[derive(Clone, Copy, Debug)]
pub struct Choice {
    pub name: &'static str,
    pub value: &'static str,
    pub selected: bool,
}

/// The ratings in the order the form lists them.
pub open spec fn listed_ratings() -> Seq<SearchRating> {
    seq![SearchRating::All, SearchRating::Safe, SearchRating::Adult]
}

/// The orders in the order the form lists them.
pub open spec fn listed_orders() -> Seq<SearchOrder> {
    seq![
        SearchOrder::DateDescending,
        SearchOrder::DateAscending,
        SearchOrder::Popular,
        SearchOrder::PopularMale,
        SearchOrder::PopularFemale,
    ]
}

/// The modes in the order the form lists them.
pub open spec fn listed_modes() -> Seq<SearchMode> {
    seq![SearchMode::TagsPerfect, SearchMode::TagsPartial, SearchMode::TitleCaption]
}

impl SearchRating {
    /// The rating as the form shows it.
    pub open spec fn label(self) -> Seq<char> {
        match self {
            SearchRating::All => "All"@,
            SearchRating::Safe => "Safe"@,
            SearchRating::Adult => "R-18"@,
        }
    }

    fn choice(self, current: SearchRating) -> (c: Choice)
        ensures
            c.name@ == self.label(),
            c.value@ == self.word(),
            c.selected == (self == current),
    {
        let name = match self {
            SearchRating::All => "All",
            SearchRating::Safe => "Safe",
            SearchRating::Adult => "R-18",
        };
        Choice { name, value: self.as_str(), selected: self == current }
    }
}

impl SearchOrder {
    /// The order as the form shows it.
    pub open spec fn label(self) -> Seq<char> {
        match self {
            SearchOrder::DateDescending => "By Upload Date (Newest)"@,
            SearchOrder::DateAscending => "By Upload Date (Oldest)"@,
            SearchOrder::Popular => "By Popularity (All)"@,
            SearchOrder::PopularMale => "By Popularity (Male)"@,
            SearchOrder::PopularFemale => "By Popularity (Female)"@,
        }
    }

    fn choice(self, current: SearchOrder) -> (c: Choice)
        ensures
            c.name@ == self.label(),
            c.value@ == self.word(),
            c.selected == (self == current),
    {
        let name = match self {
            SearchOrder::DateDescending => "By Upload Date (Newest)",
            SearchOrder::DateAscending => "By Upload Date (Oldest)",
            SearchOrder::Popular => "By Popularity (All)",
            SearchOrder::PopularMale => "By Popularity (Male)",
            SearchOrder::PopularFemale => "By Popularity (Female)",
        };
        Choice { name, value: self.as_str(), selected: self == current }
    }
}

impl SearchMode {
    /// The mode as the form shows it.
    pub open spec fn label(self) -> Seq<char> {
        match self {
            SearchMode::TagsPerfect => "Tags (perfect match)"@,
            SearchMode::TagsPartial => "Tags (partial match)"@,
            SearchMode::TitleCaption => "Title, Caption"@,
        }
    }

    fn choice(self, current: SearchMode) -> (c: Choice)
        ensures
            c.name@ == self.label(),
            c.value@ == self.word(),
            c.selected == (self == current),
    {
        let name = match self {
            SearchMode::TagsPerfect => "Tags (perfect match)",
            SearchMode::TagsPartial => "Tags (partial match)",
            SearchMode::TitleCaption => "Title, Caption",
        };
        Choice { name, value: self.as_str(), selected: self == current }
    }
}

/// The choices of rating, that of `current` selected and no other.
pub fn rating_choices(current: SearchRating) -> (choices: Vec<Choice>)
    ensures
        choices@.len() == listed_ratings().len(),
        forall|i: int|
            0 <= i < choices@.len() ==> {
                &&& (#[trigger] choices@[i]).name@ == listed_ratings()[i].label()
                &&& choices@[i].value@ == listed_ratings()[i].word()
                &&& choices@[i].selected == (listed_ratings()[i] == current)
            },
{
    let mut choices: Vec<Choice> = Vec::new();
    choices.push(SearchRating::All.choice(current));
    choices.push(SearchRating::Safe.choice(current));
    choices.push(SearchRating::Adult.choice(current));
    choices
}

/// The choices of order, that of `current` selected and no other.
pub fn order_choices(current: SearchOrder) -> (choices: Vec<Choice>)
    ensures
        choices@.len() == listed_orders().len(),
        forall|i: int|
            0 <= i < choices@.len() ==> {
                &&& (#[trigger] choices@[i]).name@ == listed_orders()[i].label()
                &&& choices@[i].value@ == listed_orders()[i].word()
                &&& choices@[i].selected == (listed_orders()[i] == current)
            },
{
    let mut choices: Vec<Choice> = Vec::new();
    choices.push(SearchOrder::DateDescending.choice(current));
    choices.push(SearchOrder::DateAscending.choice(current));
    choices.push(SearchOrder::Popular.choice(current));
    choices.push(SearchOrder::PopularMale.choice(current));
    choices.push(SearchOrder::PopularFemale.choice(current));
    choices
}

/// The choices of mode, that of `current` selected and no other.
pub fn mode_choices(current: SearchMode) -> (choices: Vec<Choice>)
    ensures
        choices@.len() == listed_modes().len(),
        forall|i: int|
            0 <= i < choices@.len() ==> {
                &&& (#[trigger] choices@[i]).name@ == listed_modes()[i].label()
                &&& choices@[i].value@ == listed_modes()[i].word()
                &&& choices@[i].selected == (listed_modes()[i] == current)
            },
{
    let mut choices: Vec<Choice> = Vec::new();
    choices.push(SearchMode::TagsPerfect.choice(current));
    choices.push(SearchMode::TagsPartial.choice(current));
    choices.push(SearchMode::TitleCaption.choice(current));
    choices
}

} // verus!
