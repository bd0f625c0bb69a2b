use vstd::prelude::*;

verus! {

/// The pages of the client: `/`, `/choose`, and anything else.
#[derive(Clone, Copy, Debug, PartialEq, Eq, Structural)]
pub enum AppRoutes {
    Index,
    Choose,
    NotFound,
}

/// What the client shows.
#[derive(Clone, Copy, Debug, PartialEq, Eq, Structural)]
pub enum Page {
    /// The start page.
    Index,
    /// The list of fighters to choose from.
    Fighters,
    /// The not-found text.
    NotFound,
}

pub const NOT_FOUND_TEXT: &'static str = "404 Page Not Found";

/// The page shown for a route.
pub fn page_for(route: AppRoutes) -> (p: Page)
    ensures
        p == match route {
            AppRoutes::Index => Page::Index,
            AppRoutes::Choose => Page::Fighters,
            AppRoutes::NotFound => Page::NotFound,
        },
{
    match route {
        AppRoutes::Index => Page::Index,
        AppRoutes::Choose => Page::Fighters,
        AppRoutes::NotFound => Page::NotFound,
    }
}

} // verus!
