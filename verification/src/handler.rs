//! The query handler: normalizes the caller's optional name into the
//! filter pattern the repository expects, invokes the repository port, and
//! maps the outcome onto an HTTP-style response.

use vstd::prelude::*;
use crate::hero::{Hero, HeroView, views_of};
use crate::json::{heroes_json, heroes_to_json};
use crate::repository::{DataAccessError, HeroesRepositoryTrait};

verus! {

/// The caller's query: an optional name to filter the collection by.
pub struct GetHeroFilter {
    pub name: Option<String>,
}

impl View for GetHeroFilter {
    type V = Option<Seq<char>>;

    open spec fn view(&self) -> Option<Seq<char>> {
        match self.name {
            Option::Some(ref s) => Option::Some(s@),
            Option::None => Option::None,
        }
    }
}

/// The filter pattern the handler passes to the repository for an optional
/// raw name: an absent name becomes the wildcard marker alone (match
/// everything); a name already ending in the marker passes through
/// unchanged; any other name gets the marker appended.
pub open spec fn normalized_filter(name: Option<Seq<char>>) -> Seq<char> {
    match name {
        Option::None => seq!['%'],
        Option::Some(s) => if s.len() > 0 && s.last() == '%' {
            s
        } else {
            s.push('%')
        },
    }
}

/// Whatever the caller sent, the filter handed to the repository is
/// non-empty and ends with the wildcard marker.
pub proof fn lemma_normalized_filter_ends_with_marker(name: Option<Seq<char>>)
    ensures
        normalized_filter(name).len() > 0,
        normalized_filter(name).last() == '%',
{
}

/// Builds the filter pattern for the repository, exactly
/// [`normalized_filter`] of the raw name.
pub fn normalize_filter(filter: &GetHeroFilter) -> (r: String)
    ensures
        r@ == normalized_filter(filter@),
{
    match &filter.name {
        Option::None => {
            let r = String::from_str("%");
            proof {
                reveal_strlit("%");
                assert(r@ =~= seq!['%']);
            }
            r
        },
        Option::Some(s) => {
            let len = s.as_str().unicode_len();
            if len > 0 && s.as_str().get_char(len - 1) == '%' {
                s.clone()
            } else {
                let mut r = s.clone();
                r.append("%");
                proof {
                    reveal_strlit("%");
                    assert(r@ =~= s@.push('%'));
                }
                r
            }
        },
    }
}

/// The transport-level result of a query: an HTTP status code and the
/// response body.
pub struct HeroResponse {
    pub status: u16,
    pub body: String,
}

/// A repository outcome with the entities replaced by their views.
pub open spec fn outcome_view(outcome: Result<Vec<Hero>, DataAccessError>) -> Result<
    Seq<HeroView>,
    DataAccessError,
> {
    match outcome {
        Result::Ok(v) => Result::Ok(views_of(v@)),
        Result::Err(e) => Result::Err(e),
    }
}

/// The status code owed to a repository outcome: success is 200, zero
/// matches is 404, and both failure kinds are surfaced as a generic 500.
pub open spec fn status_of(outcome: Result<Seq<HeroView>, DataAccessError>) -> u16 {
    match outcome {
        Result::Ok(_) => 200,
        Result::Err(DataAccessError::NotFound) => 404,
        Result::Err(DataAccessError::TechnicalError) => 500,
        Result::Err(DataAccessError::OtherError) => 500,
    }
}

/// The body owed to a repository outcome: the JSON array of the entities on
/// success, empty on every failure (no internal detail leaks out).
pub open spec fn body_of(outcome: Result<Seq<HeroView>, DataAccessError>) -> Seq<char> {
    match outcome {
        Result::Ok(hs) => heroes_json(hs),
        Result::Err(_) => Seq::empty(),
    }
}

/// Maps a repository outcome onto the response: exactly [`status_of`] and
/// [`body_of`].
pub fn map_outcome(outcome: Result<Vec<Hero>, DataAccessError>) -> (r: HeroResponse)
    ensures
        r.status == status_of(outcome_view(outcome)),
        r.body@ == body_of(outcome_view(outcome)),
{
    match outcome {
        Result::Ok(heroes) => HeroResponse { status: 200, body: heroes_to_json(&heroes) },
        Result::Err(DataAccessError::NotFound) => HeroResponse {
            status: 404,
            body: String::new(),
        },
        Result::Err(_) => HeroResponse { status: 500, body: String::new() },
    }
}

/// Handles one query against any repository implementation: normalizes the
/// optional raw name (see [`normalized_filter`]), asks the repository, and
/// maps the outcome onto the response (see [`status_of`] and [`body_of`]).
/// Only 200, 404 and 500 can come out; a body is only ever sent with a 200,
/// and then it is the JSON array of the (at least one) entities found.
pub fn handle<R: HeroesRepositoryTrait>(repo: &R, filter: &GetHeroFilter) -> (r: HeroResponse)
    ensures
        r.status == 200 || r.status == 404 || r.status == 500,
        r.status != 200 ==> r.body@ == Seq::<char>::empty(),
        r.status == 200 ==> exists|hs: Seq<HeroView>| hs.len() > 0 && r.body@ == heroes_json(hs),
{
    let pattern = normalize_filter(filter);
    let outcome = repo.get_by_name(pattern.as_str());
    proof {
        if outcome is Ok {
            let v = outcome->Ok_0;
            assert(views_of(v@).len() > 0);
        }
    }
    map_outcome(outcome)
}

} // verus!
