//! Searching: the orders, ratings and modes the service knows, by the
//! words it knows them by.

use vstd::prelude::*;
use crate::api::common::PixivSearchResult;
use crate::text::str_eq;
use crate::util::{get_param_or_num, number_or};

verus! {

pub struct PixivArray<T> {
    pub data: Vec<T>,
    pub total: usize,
}

pub struct PixivSearch {
    pub illust_manga: PixivArray<PixivSearchResult>,
}

#[derive(Clone, Copy, Debug, PartialEq, Eq, Structural)]
pub enum SearchOrder {
    DateDescending,
    DateAscending,
    Popular,
    PopularMale,
    PopularFemale,
}

impl SearchOrder {
    /// The service's word for the order.
    pub open spec fn word(self) -> Seq<char> {
        match self {
            SearchOrder::DateDescending => "date_d"@,
            SearchOrder::DateAscending => "date"@,
            SearchOrder::Popular => "popular_d"@,
            SearchOrder::PopularMale => "popular_male_d"@,
            SearchOrder::PopularFemale => "popular_female_d"@,
        }
    }

    /// The order that a word names, if it names one.
    pub open spec fn of_word(s: Seq<char>) -> Option<SearchOrder> {
        if s == "date_d"@ {
            Some(SearchOrder::DateDescending)
        } else if s == "date"@ {
            Some(SearchOrder::DateAscending)
        } else if s == "popular_d"@ {
            Some(SearchOrder::Popular)
        } else if s == "popular_male_d"@ {
            Some(SearchOrder::PopularMale)
        } else if s == "popular_female_d"@ {
            Some(SearchOrder::PopularFemale)
        } else {
            None
        }
    }

    pub fn as_str(&self) -> (s: &'static str)
        ensures
            s@ == self.word(),
    {
        match self {
            Self::DateDescending => "date_d",
            Self::DateAscending => "date",
            Self::Popular => "popular_d",
            Self::PopularMale => "popular_male_d",
            Self::PopularFemale => "popular_female_d",
        }
    }

    /// Reads an order from the service's word for it.
    pub fn parse(s: &str) -> (r: Option<SearchOrder>)
        ensures
            r == Self::of_word(s@),
    {
        if str_eq(s, "date_d") {
            Some(Self::DateDescending)
        } else if str_eq(s, "date") {
            Some(Self::DateAscending)
        } else if str_eq(s, "popular_d") {
            Some(Self::Popular)
        } else if str_eq(s, "popular_male_d") {
            Some(Self::PopularMale)
        } else if str_eq(s, "popular_female_d") {
            Some(Self::PopularFemale)
        } else {
            None
        }
    }
}

impl std::str::FromStr for SearchOrder {
    type Err = ();

    /// Reads the value from the service's word for it; any other string
    /// is refused.
    fn from_str(s: &str) -> (r: Result<Self, Self::Err>)
        ensures
            r == match SearchOrder::of_word(s@) {
                Some(order) => Ok::<SearchOrder, ()>(order),
                None => Err::<SearchOrder, ()>(()),
            },
    {
        match SearchOrder::parse(s) {
            Some(order) => Ok(order),
            None => Err(()),
        }
    }
}

#[derive(Clone, Copy, Debug, PartialEq, Eq, Structural)]
pub enum SearchRating {
    All,
    Adult,
    Safe,
}

impl SearchRating {
    /// The service's word for the rating.
    pub open spec fn word(self) -> Seq<char> {
        match self {
            SearchRating::All => "all"@,
            SearchRating::Adult => "r18"@,
            SearchRating::Safe => "safe"@,
        }
    }

    /// The rating that a word names, if it names one.
    pub open spec fn of_word(s: Seq<char>) -> Option<SearchRating> {
        if s == "all"@ {
            Some(SearchRating::All)
        } else if s == "r18"@ {
            Some(SearchRating::Adult)
        } else if s == "safe"@ {
            Some(SearchRating::Safe)
        } else {
            None
        }
    }

    pub fn as_str(&self) -> (s: &'static str)
        ensures
            s@ == self.word(),
    {
        match self {
            Self::All => "all",
            Self::Adult => "r18",
            Self::Safe => "safe",
        }
    }

    /// Reads a rating from the service's word for it.
    pub fn parse(s: &str) -> (r: Option<SearchRating>)
        ensures
            r == Self::of_word(s@),
    {
        if str_eq(s, "all") {
            Some(Self::All)
        } else if str_eq(s, "r18") {
            Some(Self::Adult)
        } else if str_eq(s, "safe") {
            Some(Self::Safe)
        } else {
            None
        }
    }
}

impl std::str::FromStr for SearchRating {
    type Err = ();

    /// Reads the value from the service's word for it; any other string
    /// is refused.
    fn from_str(s: &str) -> (r: Result<Self, Self::Err>)
        ensures
            r == match SearchRating::of_word(s@) {
                Some(rating) => Ok::<SearchRating, ()>(rating),
                None => Err::<SearchRating, ()>(()),
            },
    {
        match SearchRating::parse(s) {
            Some(rating) => Ok(rating),
            None => Err(()),
        }
    }
}

#[derive(Clone, Copy, Debug, PartialEq, Eq, Structural)]
pub enum SearchMode {
    TagsPerfect,
    TagsPartial,
    TitleCaption,
}

impl SearchMode {
    /// The service's word for the mode.
    pub open spec fn word(self) -> Seq<char> {
        match self {
            SearchMode::TagsPerfect => "s_tag_full"@,
            SearchMode::TagsPartial => "s_tag"@,
            SearchMode::TitleCaption => "s_tc"@,
        }
    }

    /// The mode that a word names, if it names one.
    pub open spec fn of_word(s: Seq<char>) -> Option<SearchMode> {
        if s == "s_tag_full"@ {
            Some(SearchMode::TagsPerfect)
        } else if s == "s_tag"@ {
            Some(SearchMode::TagsPartial)
        } else if s == "s_tc"@ {
            Some(SearchMode::TitleCaption)
        } else {
            None
        }
    }

    pub fn as_str(&self) -> (s: &'static str)
        ensures
            s@ == self.word(),
    {
        match self {
            Self::TagsPerfect => "s_tag_full",
            Self::TagsPartial => "s_tag",
            Self::TitleCaption => "s_tc",
        }
    }

    /// Reads a mode from the service's word for it.
    pub fn parse(s: &str) -> (r: Option<SearchMode>)
        ensures
            r == Self::of_word(s@),
    {
        if str_eq(s, "s_tag_full") {
            Some(Self::TagsPerfect)
        } else if str_eq(s, "s_tag") {
            Some(Self::TagsPartial)
        } else if str_eq(s, "s_tc") {
            Some(Self::TitleCaption)
        } else {
            None
        }
    }
}

impl std::str::FromStr for SearchMode {
    type Err = ();

    /// Reads the value from the service's word for it; any other string
    /// is refused.
    fn from_str(s: &str) -> (r: Result<Self, Self::Err>)
        ensures
            r == match SearchMode::of_word(s@) {
                Some(mode) => Ok::<SearchMode, ()>(mode),
                None => Err::<SearchMode, ()>(()),
            },
    {
        match SearchMode::parse(s) {
            Some(mode) => Ok(mode),
            None => Err(()),
        }
    }
}

#[derive(Clone, Copy, Debug)]
pub struct SearchRequest {
    pub page: u32,
    pub order: SearchOrder,
    pub rating: SearchRating,
    pub mode: SearchMode,
}

/// The characters of a parameter that is there.
pub open spec fn given(value: Option<&str>) -> Option<Seq<char>> {
    match value {
        Some(v) => Some(v@),
        None => None,
    }
}

impl SearchRequest {
    /// The search that the parameters of a request ask for. A parameter
    /// that is missing or not understood gives way to its default: page
    /// 1, newest first, any rating, tags matched in full.
    pub open spec fn of_params(
        p: Option<Seq<char>>,
        order: Option<Seq<char>>,
        mode: Option<Seq<char>>,
        s_mode: Option<Seq<char>>,
    ) -> SearchRequest {
        SearchRequest {
            page: number_or(p, 1),
            order: match order {
                Some(w) => match SearchOrder::of_word(w) {
                    Some(o) => o,
                    None => SearchOrder::DateDescending,
                },
                None => SearchOrder::DateDescending,
            },
            rating: match mode {
                Some(w) => match SearchRating::of_word(w) {
                    Some(r) => r,
                    None => SearchRating::All,
                },
                None => SearchRating::All,
            },
            mode: match s_mode {
                Some(w) => match SearchMode::of_word(w) {
                    Some(m) => m,
                    None => SearchMode::TagsPerfect,
                },
                None => SearchMode::TagsPerfect,
            },
        }
    }

    /// Reads a search from the parameters `p`, `order`, `mode` and
    /// `s_mode` of a request.
    pub fn from_params(
        p: Option<&str>,
        order: Option<&str>,
        mode: Option<&str>,
        s_mode: Option<&str>,
    ) -> (r: SearchRequest)
        ensures
            r == Self::of_params(given(p), given(order), given(mode), given(s_mode)),
    {
        let order = match order {
            Some(w) => match SearchOrder::parse(w) {
                Some(o) => o,
                None => SearchOrder::DateDescending,
            },
            None => SearchOrder::DateDescending,
        };
        let rating = match mode {
            Some(w) => match SearchRating::parse(w) {
                Some(r) => r,
                None => SearchRating::All,
            },
            None => SearchRating::All,
        };
        let mode = match s_mode {
            Some(w) => match SearchMode::parse(w) {
                Some(m) => m,
                None => SearchMode::TagsPerfect,
            },
            None => SearchMode::TagsPerfect,
        };
        SearchRequest { page: get_param_or_num(p, 1), order, rating, mode }
    }
}

/// Every order, rating and mode is read back from the word it is written
/// as.
pub proof fn law_words_round_trip(order: SearchOrder, rating: SearchRating, mode: SearchMode)
    ensures
        SearchOrder::of_word(order.word()) == Some(order),
        SearchRating::of_word(rating.word()) == Some(rating),
        SearchMode::of_word(mode.word()) == Some(mode),
{
    reveal_strlit("date_d");
    reveal_strlit("date");
    reveal_strlit("popular_d");
    reveal_strlit("popular_male_d");
    reveal_strlit("popular_female_d");
    reveal_strlit("all");
    reveal_strlit("r18");
    reveal_strlit("safe");
    reveal_strlit("s_tag_full");
    reveal_strlit("s_tag");
    reveal_strlit("s_tc");
    assert("date_d"@.len() == 6 && "date"@.len() == 4 && "popular_d"@.len() == 9);
    assert("popular_male_d"@.len() == 14 && "popular_female_d"@.len() == 16);
    assert("all"@[0] == 'a' && "r18"@[0] == 'r' && "safe"@.len() == 4 && "all"@.len() == 3);
    assert("s_tag_full"@.len() == 10 && "s_tag"@.len() == 5 && "s_tc"@.len() == 4);
}

} // verus!
