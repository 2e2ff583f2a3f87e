//! The pages of the browser front end, and where a search leads.

use vstd::prelude::*;

verus! {

/// A page of the front end: the home page, an upgrade cap's page, or the
/// page for unknown paths.
pub enum Route {
    Home,
    UpgradeCap { id: String },
    NotFound,
}

/// Where submitting the search box leads: to the page of the cap whose id
/// was typed, or nowhere when the box is empty.
pub fn search_route(value: &str) -> (route: Option<Route>)
    ensures
        value@.len() == 0 ==> route is None,
        value@.len() != 0 ==> (route matches Some(Route::UpgradeCap { id }) && id@ == value@),
{
    if value.is_empty() {
        None
    } else {
        Some(Route::UpgradeCap { id: value.to_owned() })
    }
}

} // verus!
