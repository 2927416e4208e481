//! Resolution of the identifier that a launcher hands to a wrapped game:
//! which title, in the libraries of the configured roots, belongs to it.

use crate::library::{library_records, record_views, LibraryGame, LibraryGameView, Manifest};
use crate::text::{optional_text, same_text};
use vstd::prelude::*;

verus! {

/// The store that a root belongs to.
#[derive(Clone, Copy, Debug, PartialEq, Eq, Structural)]
pub enum Store {
    Heroic,
    Legendary,
    Lutris,
    Steam,
    Other,
}

/// A configured root, with what came of reading the listings kept under it.
#[derive(Clone, Debug, PartialEq, Eq)]
pub struct Root {
    /// Where the root lies on disk.
    pub path: String,
    /// The store that manages it.
    pub store: Store,
    /// The library of the GOG runner.
    pub gog_library: Manifest,
    /// The installed games of the Legendary runner.
    pub legendary_installed: Manifest,
}

/// A listing that a root keeps.
#[derive(Clone, Copy, Debug, PartialEq, Eq, Structural)]
pub enum Listing {
    GogLibrary,
    LegendaryInstalled,
}

/// The runner that a launcher started a game with.
#[derive(Clone, Debug, PartialEq, Eq)]
pub enum Runner {
    Gog,
    Legendary,
    Nile,
    Sideload,
    /// A runner that is not known, with its name as it was given.
    Unrecognized(String),
}

/// A runner as a plain value.
pub enum RunnerView {
    Gog,
    Legendary,
    Nile,
    Sideload,
    Unrecognized(Seq<char>),
}

impl View for Runner {
    type V = RunnerView;

    open spec fn view(&self) -> RunnerView {
        match self {
            Runner::Gog => RunnerView::Gog,
            Runner::Legendary => RunnerView::Legendary,
            Runner::Nile => RunnerView::Nile,
            Runner::Sideload => RunnerView::Sideload,
            Runner::Unrecognized(name) => RunnerView::Unrecognized(name@),
        }
    }
}

/// The runner that a name stands for. Names are matched exactly.
pub open spec fn runner_of(name: Seq<char>) -> RunnerView {
    if name == "gog"@ {
        RunnerView::Gog
    } else if name == "legendary"@ {
        RunnerView::Legendary
    } else if name == "nile"@ {
        RunnerView::Nile
    } else if name == "sideload"@ {
        RunnerView::Sideload
    } else {
        RunnerView::Unrecognized(name)
    }
}

/// The listing in which a runner's games are looked up; none for a runner
/// that is not supported or not known.
pub open spec fn listing_of(runner: RunnerView) -> Option<Listing> {
    match runner {
        RunnerView::Gog => Some(Listing::GogLibrary),
        RunnerView::Legendary => Some(Listing::LegendaryInstalled),
        _ => None,
    }
}

/// The title of the first record from position `from` on whose identifier is
/// `app_name`.
pub open spec fn first_title(records: Seq<LibraryGameView>, app_name: Seq<char>, from: int)
    -> Option<Seq<char>>
    decreases records.len() - from,
{
    if from < 0 || from >= records.len() {
        None
    } else if records[from].app_name == app_name {
        Some(records[from].title)
    } else {
        first_title(records, app_name, from + 1)
    }
}

/// The records of one listing of a root; none where its manifest is missing
/// or malformed.
pub open spec fn listed_records(root: Root, listing: Listing) -> Seq<LibraryGameView> {
    match listing {
        Listing::GogLibrary => record_views(library_records(root.gog_library)),
        Listing::LegendaryInstalled => record_views(library_records(root.legendary_installed)),
    }
}

/// The listing that a search for a game of `runner` reads in a root of
/// `store`. Only a root of the Heroic store is looked into, and only for a
/// runner that has a listing.
pub open spec fn listing_read(store: Store, runner: RunnerView) -> Option<Listing> {
    if store == Store::Heroic {
        listing_of(runner)
    } else {
        None
    }
}

/// The title that one root gives for `app_name`: the title of the first
/// record with that identifier in the listing that is read, if one is read.
pub open spec fn title_in_root(root: Root, app_name: Seq<char>, runner: RunnerView) -> Option<
    Seq<char>,
> {
    match listing_read(root.store, runner) {
        Some(listing) => first_title(listed_records(root, listing), app_name, 0),
        None => None,
    }
}

/// The title that the first root from position `from` on gives for
/// `app_name`.
pub open spec fn title_in_roots(
    roots: Seq<Root>,
    app_name: Seq<char>,
    runner: RunnerView,
    from: int,
) -> Option<Seq<char>>
    decreases roots.len() - from,
{
    if from < 0 || from >= roots.len() {
        None
    } else {
        match title_in_root(roots[from], app_name, runner) {
            Some(title) => Some(title),
            None => title_in_roots(roots, app_name, runner, from + 1),
        }
    }
}

impl Runner {
    /// Reads a runner's name as the launcher gives it.
    pub fn parse(name: &str) -> (result: Runner)
        ensures
            result@ == runner_of(name@),
    {
        if same_text(name, "gog") {
            Runner::Gog
        } else if same_text(name, "legendary") {
            Runner::Legendary
        } else if same_text(name, "nile") {
            Runner::Nile
        } else if same_text(name, "sideload") {
            Runner::Sideload
        } else {
            Runner::Unrecognized(name.to_owned())
        }
    }

    /// The listing to read for this runner. A caller that gets `None` has
    /// nothing to read: no root will be looked into.
    pub fn listing(&self) -> (result: Option<Listing>)
        ensures
            result == listing_of(self@),
    {
        match self {
            Runner::Gog => Some(Listing::GogLibrary),
            Runner::Legendary => Some(Listing::LegendaryInstalled),
            _ => None,
        }
    }
}

/// The listing that a search for a game of `runner` reads in a root of
/// `store`. With `None` the root has no part in the search, and a caller has
/// nothing to read for it.
pub fn listing_to_read(store: Store, runner: &Runner) -> (result: Option<Listing>)
    ensures
        result == listing_read(store, runner@),
{
    if store == Store::Heroic {
        runner.listing()
    } else {
        None
    }
}

/// The title of the first record of `records` whose identifier is `game_id`,
/// as the record gives it.
pub fn find_in_library(records: &Vec<LibraryGame>, game_id: &str) -> (result: Option<String>)
    ensures
        optional_text(result) == first_title(record_views(records@), game_id@, 0),
{
    let ghost views = record_views(records@);
    let mut i: usize = 0;
    while i < records.len()
        invariant
            i <= records@.len(),
            views == record_views(records@),
            first_title(views, game_id@, 0) == first_title(views, game_id@, i as int),
        decreases records@.len() - i,
    {
        assert(views[i as int] == records@[i as int]@);
        if same_text(records[i].app_name.as_str(), game_id) {
            return Some(records[i].title.clone());
        }
        i += 1;
    }
    None
}

fn find_in_root(root: &Root, game_id: &str, listing: Listing) -> (result: Option<String>)
    ensures
        optional_text(result) == first_title(listed_records(*root, listing), game_id@, 0),
{
    let manifest = match listing {
        Listing::GogLibrary => &root.gog_library,
        Listing::LegendaryInstalled => &root.legendary_installed,
    };
    match manifest {
        Manifest::Parsed(games) => find_in_library(games, game_id),
        _ => None,
    }
}

/// A runner without a listing finds nothing, whatever the roots hold.
pub proof fn lemma_runner_without_listing(
    roots: Seq<Root>,
    app_name: Seq<char>,
    runner: RunnerView,
    from: int,
)
    requires
        listing_of(runner) is None,
    ensures
        title_in_roots(roots, app_name, runner, from) is None,
    decreases roots.len() - from,
{
    if 0 <= from < roots.len() {
        lemma_runner_without_listing(roots, app_name, runner, from + 1);
    }
}

/// A runner's name that is not among the known ones finds nothing, whatever
/// the roots hold and whichever identifier is asked for.
pub proof fn lemma_unknown_runner_finds_nothing(
    roots: Seq<Root>,
    app_name: Seq<char>,
    runner_name: Seq<char>,
)
    requires
        runner_name != "gog"@,
        runner_name != "legendary"@,
        runner_name != "nile"@,
        runner_name != "sideload"@,
    ensures
        runner_of(runner_name) == RunnerView::Unrecognized(runner_name),
        title_in_roots(roots, app_name, runner_of(runner_name), 0) is None,
{
    lemma_runner_without_listing(roots, app_name, runner_of(runner_name), 0);
}

/// The first root that gives a title decides: where root `i` gives one and no
/// root from `from` up to it does, the search from `from` gives that title.
pub proof fn lemma_search_stops_at_match(
    roots: Seq<Root>,
    app_name: Seq<char>,
    runner: RunnerView,
    from: int,
    i: int,
)
    requires
        0 <= from <= i < roots.len(),
        title_in_root(roots[i], app_name, runner) is Some,
        forall|j: int|
            from <= j < i ==> title_in_root(#[trigger] roots[j], app_name, runner) is None,
    ensures
        title_in_roots(roots, app_name, runner, from) == title_in_root(roots[i], app_name, runner),
    decreases i - from,
{
    if from < i {
        assert(title_in_root(roots[from], app_name, runner) is None);
        lemma_search_stops_at_match(roots, app_name, runner, from + 1, i);
    }
}

/// Roots are tried in their order and the first match wins: where root `i`
/// is the first that gives a title, that title is the result, and the roots
/// after it have no part in it. Any other list of roots that begins with the
/// same `i + 1` roots gives the same result.
pub proof fn lemma_first_root_wins(
    roots: Seq<Root>,
    others: Seq<Root>,
    app_name: Seq<char>,
    runner: RunnerView,
    i: int,
)
    requires
        0 <= i < roots.len(),
        i < others.len(),
        forall|j: int| 0 <= j <= i ==> others[j] == roots[j],
        title_in_root(roots[i], app_name, runner) is Some,
        forall|j: int| 0 <= j < i ==> title_in_root(#[trigger] roots[j], app_name, runner) is None,
    ensures
        title_in_roots(roots, app_name, runner, 0) == title_in_root(roots[i], app_name, runner),
        title_in_roots(others, app_name, runner, 0) == title_in_roots(roots, app_name, runner, 0),
{
    lemma_search_stops_at_match(roots, app_name, runner, 0, i);
    assert forall|j: int| 0 <= j < i implies title_in_root(
        #[trigger] others[j],
        app_name,
        runner,
    ) is None by {
        assert(title_in_root(roots[j], app_name, runner) is None);
    }
    lemma_search_stops_at_match(others, app_name, runner, 0, i);
}

/// Tries to find a game with ID `game_id` in the given roots; how it is
/// looked up depends on `game_runner`. Roots of the Heroic store are tried in
/// their order, and the first that lists the game gives its title, as the
/// listing has it. An unsupported or unknown runner finds nothing.
pub fn find_in_roots(roots: &[Root], game_id: &str, game_runner: &str) -> (result: Option<String>)
    ensures
        optional_text(result) == title_in_roots(roots@, game_id@, runner_of(game_runner@), 0),
{
    let runner = Runner::parse(game_runner);
    let listing = match runner.listing() {
        Some(listing) => listing,
        None => {
            proof {
                lemma_runner_without_listing(roots@, game_id@, runner@, 0);
            }
            return None;
        },
    };
    let mut i: usize = 0;
    while i < roots.len()
        invariant
            i <= roots@.len(),
            listing_of(runner@) == Some(listing),
            runner@ == runner_of(game_runner@),
            title_in_roots(roots@, game_id@, runner@, 0) == title_in_roots(
                roots@,
                game_id@,
                runner@,
                i as int,
            ),
        decreases roots@.len() - i,
    {
        let root = &roots[i];
        if root.store == Store::Heroic {
            let found = find_in_root(root, game_id, listing);
            if found.is_some() {
                return found;
            }
        }
        i += 1;
    }
    None
}

/// The variables that Heroic sets for a game it starts (from 2.9.2 on), as
/// far as each was set.
#[derive(Clone, Debug, PartialEq, Eq)]
pub struct HeroicEnvironment {
    /// `HEROIC_APP_NAME`: the ID, not the human-friendly title.
    pub app_name: Option<String>,
    /// `HEROIC_APP_RUNNER`: one of gog, legendary, nile, sideload.
    pub app_runner: Option<String>,
    /// `HEROIC_APP_SOURCE`: one of gog, epic, amazon, sideload. Not used.
    pub app_source: Option<String>,
}

/// The title that the environment of a wrapped game resolves to.
pub open spec fn title_for_environment(roots: Seq<Root>, environment: HeroicEnvironment) -> Option<
    Seq<char>,
> {
    match (environment.app_name, environment.app_runner) {
        (Some(app_name), Some(app_runner)) => title_in_roots(
            roots,
            app_name@,
            runner_of(app_runner@),
            0,
        ),
        _ => None,
    }
}

/// Finds the game that Heroic started, going by the variables it set. Where
/// the identifier or the runner is not set there is no match; else the
/// roots are searched as `find_in_roots` does. The commands and the source
/// variable have no part in it.
pub fn parse_heroic_2_9_2_environment_variables(
    roots: &[Root],
    _commands: &[String],
    environment: &HeroicEnvironment,
) -> (result: Option<String>)
    ensures
        optional_text(result) == title_for_environment(roots@, *environment),
{
    let heroic_app_name = match &environment.app_name {
        Some(value) => value,
        None => {
            return None;
        },
    };
    let heroic_app_runner = match &environment.app_runner {
        Some(value) => value,
        None => {
            return None;
        },
    };
    find_in_roots(roots, heroic_app_name.as_str(), heroic_app_runner.as_str())
}

} // verus!
