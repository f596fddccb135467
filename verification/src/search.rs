//! The city search dialog and the lookup of the configured location: what
//! they show and which place they pick. The dialog's widgets and the
//! requests live with the caller.

use vstd::prelude::*;
use crate::models::Location;
use crate::text::{int_text, push_digits, push_str, string_from_chars};

verus! {

/// The status line shown while no search runs.
pub open spec fn idle_status() -> Seq<char> {
    "Enter a city name to search"@
}

/// What pressing "Search" does with the typed text.
pub struct SearchStart {
    /// The status line to show.
    pub status: String,
    /// Whether to clear the list and start a search for the text.
    pub search: bool,
}

/// An empty query asks for a city name and starts nothing; any other query
/// starts a search, with the status "Searching...".
pub fn search_start(query: &str) -> (r: SearchStart)
    ensures
        r.search == (query@.len() > 0),
        r.search ==> r.status@ == "Searching..."@,
        !r.search ==> r.status@ == idle_status(),
{
    if query.unicode_len() == 0 {
        SearchStart { status: String::from_str("Enter a city name to search"), search: false }
    } else {
        SearchStart { status: String::from_str("Searching..."), search: true }
    }
}

/// What the dialog shows for a search's answer.
pub struct SearchView {
    /// The status line.
    pub status: String,
    /// One line per place found.
    pub rows: Vec<String>,
    /// The places the rows stand for, when they replace the dialog's list.
    pub results: Option<Vec<Location>>,
}

/// "Found {n} result(s)".
pub open spec fn found_status(n: int) -> Seq<char> {
    "Found "@ + int_text(n) + " result(s)"@
}

/// The dialog after an answer: the places found, each as its display name,
/// with their count; "No results found" when there are none; the error
/// after "Error: " when the search failed.
pub fn search_result_view(result: Result<Vec<Location>, String>) -> (r: SearchView)
    ensures
        match result {
            Ok(locs) => if locs@.len() == 0 {
                &&& r.status@ == "No results found"@
                &&& r.rows@.len() == 0
                &&& r.results is None
            } else {
                &&& r.status@ == found_status(locs@.len() as int)
                &&& r.rows@.len() == locs@.len()
                &&& forall|i: int| 0 <= i < locs@.len() ==> (#[trigger] r.rows@[i])@ == locs@[i].display_name_spec()
                &&& r.results == Some(locs)
            },
            Err(e) => {
                &&& r.status@ == "Error: "@ + e@
                &&& r.rows@.len() == 0
                &&& r.results is None
            },
        },
{
    match result {
        Ok(locs) => {
            if locs.len() == 0 {
                SearchView { status: String::from_str("No results found"), rows: Vec::new(), results: None }
            } else {
                let n = locs.len();
                let mut rows: Vec<String> = Vec::new();
                let mut i: usize = 0;
                while i < n
                    invariant
                        n == locs@.len(),
                        i <= n,
                        rows@.len() == i,
                        forall|j: int| 0 <= j < i ==> (#[trigger] rows@[j])@ == locs@[j].display_name_spec(),
                    decreases n - i,
                {
                    rows.push(locs[i].display_name());
                    i = i + 1;
                }
                let mut st: Vec<char> = Vec::new();
                push_str("Found ", &mut st);
                push_digits(n as u128, &mut st);
                push_str(" result(s)", &mut st);
                assert(st@ =~= found_status(n as int));
                SearchView { status: string_from_chars(st.as_slice()), rows, results: Some(locs) }
            }
        },
        Err(e) => {
            let mut st: Vec<char> = Vec::new();
            push_str("Error: ", &mut st);
            push_str(e.as_str(), &mut st);
            assert(st@ =~= "Error: "@ + e@);
            SearchView { status: string_from_chars(st.as_slice()), rows: Vec::new(), results: None }
        },
    }
}

/// The place of the activated row, if the list has one at that index.
pub fn select_result(results: &Vec<Location>, index: usize) -> (r: Option<Location>)
    ensures
        index < results@.len() ==> r == Some(results@[index as int]),
        index >= results@.len() ==> r is None,
{
    if index < results.len() {
        Some(results[index].duplicate())
    } else {
        None
    }
}

/// The place the window opens with: the first place found for the
/// configured location; else the message to report, "No location found for:
/// {query}" or "Failed to geocode default location: {error}".
pub fn locate_default(query: &str, result: Result<Vec<Location>, String>) -> (r: Result<Location, String>)
    ensures
        match result {
            Ok(locs) => if locs@.len() > 0 {
                r == Ok::<Location, String>(locs@[0])
            } else {
                r matches Err(m) && m@ == "No location found for: "@ + query@
            },
            Err(e) => r matches Err(m) && m@ == "Failed to geocode default location: "@ + e@,
        },
{
    match result {
        Ok(locs) => {
            if locs.len() > 0 {
                let mut locs = locs;
                Ok(locs.remove(0))
            } else {
                let mut m: Vec<char> = Vec::new();
                push_str("No location found for: ", &mut m);
                push_str(query, &mut m);
                assert(m@ =~= "No location found for: "@ + query@);
                Err(string_from_chars(m.as_slice()))
            }
        },
        Err(e) => {
            let mut m: Vec<char> = Vec::new();
            push_str("Failed to geocode default location: ", &mut m);
            push_str(e.as_str(), &mut m);
            assert(m@ =~= "Failed to geocode default location: "@ + e@);
            Err(string_from_chars(m.as_slice()))
        },
    }
}

} // verus!
