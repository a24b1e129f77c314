//! What the metadata provider is asked and what it answers.

use crate::common::config::AppConfig;
use crate::common::error::{Error, ErrorView};
use crate::text::{before_first, number_text, take_before, write_number};
use vstd::prelude::*;

verus! {

/// What the provider tells of one show.
#[derive(Debug)]
pub struct TvDetail {
    pub name: String,
    /// The day of the first broadcast, the year first: `2005-03-24`.
    pub first_air_date: String,
    pub number_of_seasons: i32,
}

/// What the provider answers to a search.
#[derive(Debug)]
pub struct SearchTvResponse {
    pub results: Vec<SearchTvResult>,
}

/// One show that a search found.
#[derive(Debug, Clone, Copy)]
pub struct SearchTvResult {
    pub id: i32,
}

/// What the engine keeps of a show, as plain values.
pub struct TvInfoView {
    pub name: Seq<char>,
    pub year: Seq<char>,
    pub number_of_seasons: int,
}

/// What the engine keeps of a show: its name, the year of its first
/// broadcast, and how many seasons it has.
#[derive(Debug)]
pub struct TvInfo {
    pub name: String,
    pub year: String,
    pub number_of_seasons: i32,
}

impl View for TvInfo {
    type V = TvInfoView;

    open spec fn view(&self) -> TvInfoView {
        TvInfoView {
            name: self.name@,
            year: self.year@,
            number_of_seasons: self.number_of_seasons as int,
        }
    }
}

/// What is kept of a show with this name, day of first broadcast and number
/// of seasons: the year is what stands before the first `-` of the day.
pub open spec fn tv_info_of(name: Seq<char>, first_air_date: Seq<char>, seasons: int) -> TvInfoView {
    TvInfoView { name, year: before_first(first_air_date, '-'), number_of_seasons: seasons }
}

/// Keeps of the provider's answer what the engine needs.
pub fn tv_info(detail: &TvDetail) -> (r: TvInfo)
    ensures
        r@ == tv_info_of(
            detail.name@,
            detail.first_air_date@,
            detail.number_of_seasons as int,
        ),
{
    TvInfo {
        name: detail.name.clone(),
        year: take_before(detail.first_air_date.as_str(), '-'),
        number_of_seasons: detail.number_of_seasons,
    }
}

/// The show to take from what a search for `title` found: the first one. A
/// search that found nothing is a missing show.
pub fn first_result(results: &Vec<SearchTvResult>, title: &str) -> (r: Result<i32, Error>)
    ensures
        match r {
            Ok(id) => results@.len() > 0 && id == results@[0].id,
            Err(e) => results@.len() == 0 && e@ == ErrorView::NotFound(
                "no tv found in tmdb for "@ + title@,
            ),
        },
{
    if results.len() == 0 {
        let mut m = String::from_str("no tv found in tmdb for ");
        m.append(title);
        Err(Error::NotFound(m))
    } else {
        Ok(results[0].id)
    }
}

/// The failure to report where the details of show `tv_id` could not be had:
/// a missing show is reported by its number, any other failure as it is.
pub open spec fn detail_failure_of(tv_id: int, e: ErrorView) -> ErrorView {
    match e {
        ErrorView::NotFound(_) => ErrorView::NotFound(
            "can not find tv "@ + number_text(tv_id) + " in tmdb"@,
        ),
        ErrorView::Internal(m) => ErrorView::Internal(m),
    }
}

/// Computes [`detail_failure_of`].
pub fn detail_failure(tv_id: i32, e: Error) -> (r: Error)
    ensures
        r@ == detail_failure_of(tv_id as int, e@),
{
    match e {
        Error::NotFound(_) => {
            let mut m = String::from_str("can not find tv ");
            m.append(write_number(tv_id).as_str());
            m.append(" in tmdb");
            Error::NotFound(m)
        },
        Error::Internal(m) => Error::Internal(m),
    }
}

/// The failure that an answer with the HTTP status `code` stands for, for a
/// status that is no success: 404 is a missing resource, and any other
/// status is reported with the address, the status line and the body.
pub open spec fn status_failure_of(
    code: int,
    url: Seq<char>,
    status: Seq<char>,
    body: Seq<char>,
) -> ErrorView {
    if code == 404 {
        ErrorView::NotFound("tmdb not found"@)
    } else {
        ErrorView::Internal(
            "http get "@ + url + " failed, status: "@ + status + ", body: "@ + body,
        )
    }
}

/// Computes [`status_failure_of`].
pub fn status_failure(code: u16, url: &str, status: &str, body: &str) -> (r: Error)
    ensures
        r@ == status_failure_of(code as int, url@, status@, body@),
{
    if code == 404 {
        Error::NotFound(String::from_str("tmdb not found"))
    } else {
        let mut m = String::from_str("http get ");
        m.append(url);
        m.append(" failed, status: ");
        m.append(status);
        m.append(", body: ");
        m.append(body);
        Error::Internal(m)
    }
}

/// The text of a year that may be missing: nothing for a missing one.
pub open spec fn year_text(year: Option<int>) -> Seq<char> {
    match year {
        Some(y) => number_text(y),
        None => Seq::empty(),
    }
}

/// The parameters of a search for the show `query` of the year `year`.
pub open spec fn search_query_of(query: Seq<char>, year: Option<int>) -> Seq<
    (Seq<char>, Seq<char>),
> {
    seq![
        ("query"@, query),
        ("include_adult"@, "true"@),
        ("page"@, "1"@),
        ("first_air_date_year"@, year_text(year)),
    ]
}

/// Names with their values, as plain values.
pub open spec fn pair_views(pairs: Seq<(String, String)>) -> Seq<(Seq<char>, Seq<char>)> {
    pairs.map_values(|p: (String, String)| (p.0@, p.1@))
}

/// Computes [`search_query_of`].
pub fn search_query(query: &str, year: Option<i32>) -> (r: Vec<(String, String)>)
    ensures
        pair_views(r@) == search_query_of(
            query@,
            match year {
                Some(y) => Some(y as int),
                None => None,
            },
        ),
{
    let y = match year {
        Some(y) => write_number(y),
        None => String::new(),
    };
    let mut r: Vec<(String, String)> = Vec::new();
    r.push((String::from_str("query"), String::from_str(query)));
    r.push((String::from_str("include_adult"), String::from_str("true")));
    r.push((String::from_str("page"), String::from_str("1")));
    r.push((String::from_str("first_air_date_year"), y));
    assert(pair_views(r@) =~= search_query_of(
        query@,
        match year {
            Some(y) => Some(y as int),
            None => None,
        },
    ));
    r
}

/// The key for the provider, which must be set.
pub fn api_key(config: &AppConfig) -> (r: Result<&str, Error>)
    ensures
        match r {
            Ok(key) => key@ == config@.tmdb_api_key && key@.len() > 0,
            Err(e) => config@.tmdb_api_key.len() == 0 && e@ == ErrorView::Internal(
                "tmdb api key is empty"@,
            ),
        },
{
    if config.tmdb_api_key.as_str().is_empty() {
        Err(Error::Internal(String::from_str("tmdb api key is empty")))
    } else {
        Ok(config.tmdb_api_key.as_str())
    }
}

} // verus!
