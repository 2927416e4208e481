//! The scan of one root: from the records of its manifest and what the title
//! database and the disk answered for each, to the games keyed by their
//! canonical titles.

use crate::library::{
    index_of, lemma_index_holds_every_record, record_views, GameTitleIndex, LibraryGame,
    LibraryGameView,
};
use crate::platform::{os_of_name, Os};
use crate::text::{copy_optional_text, lowercase, optional_text, to_lowercase};
use crate::title_map::TitleMap;
use vstd::prelude::*;

verus! {

/// What a scan found out about one game.
#[derive(Clone, Debug, PartialEq, Eq)]
pub struct LauncherGame {
    /// The folder that the game is installed in.
    pub install_dir: Option<String>,
    /// The directory that holds the game's saves and settings.
    pub prefix: Option<String>,
    /// The operating system that the installed build targets.
    pub platform: Option<Os>,
}

/// A found game as plain values.
pub struct LauncherGameView {
    pub install_dir: Option<Seq<char>>,
    pub prefix: Option<Seq<char>>,
    pub platform: Option<Os>,
}

impl View for LauncherGame {
    type V = LauncherGameView;

    open spec fn view(&self) -> LauncherGameView {
        LauncherGameView {
            install_dir: optional_text(self.install_dir),
            prefix: optional_text(self.prefix),
            platform: self.platform,
        }
    }
}

/// A question to the title database: candidate names, and whether they are
/// to be normalized before they are compared.
#[derive(Clone, Debug, PartialEq, Eq)]
pub struct TitleQuery {
    pub names: Vec<String>,
    pub normalized: bool,
}

/// What the probe for a game's prefix directory is given to go by.
#[derive(Clone, Debug, PartialEq, Eq)]
pub struct PrefixProbe {
    /// The display title.
    pub title: String,
    /// The platform of the install, in lower case.
    pub platform: String,
    /// The launcher's identifier of the game.
    pub app_name: String,
}

/// What the outside answered for one record: the canonical title that the
/// title database matched, if it matched one, and the prefix directory that
/// the probe found, if it found one.
#[derive(Clone, Debug, PartialEq, Eq)]
pub struct Resolution {
    pub canonical: Option<String>,
    pub prefix: Option<String>,
}

/// An answer as plain values.
pub struct ResolutionView {
    pub canonical: Option<Seq<char>>,
    pub prefix: Option<Seq<char>>,
}

impl View for Resolution {
    type V = ResolutionView;

    open spec fn view(&self) -> ResolutionView {
        ResolutionView {
            canonical: optional_text(self.canonical),
            prefix: optional_text(self.prefix),
        }
    }
}

/// What a list of answers says, answer by answer.
pub open spec fn resolution_views(resolutions: Seq<Resolution>) -> Seq<ResolutionView> {
    Seq::new(resolutions.len(), |i: int| resolutions[i]@)
}

/// What found games say, key by key.
pub open spec fn game_views(games: Map<Seq<char>, LauncherGame>) -> Map<
    Seq<char>,
    LauncherGameView,
> {
    games.map_values(|game: LauncherGame| game@)
}

/// The canonical title answered for record `i`; none where no answer was
/// given for it.
pub open spec fn canonical_at(resolutions: Seq<ResolutionView>, i: int) -> Option<Seq<char>> {
    if 0 <= i < resolutions.len() {
        resolutions[i].canonical
    } else {
        None
    }
}

/// The prefix directory answered for record `i`.
pub open spec fn prefix_at(resolutions: Seq<ResolutionView>, i: int) -> Option<Seq<char>> {
    if 0 <= i < resolutions.len() {
        resolutions[i].prefix
    } else {
        None
    }
}

/// A record is taken into the result: the index holds a display title for
/// its identifier, and the title database matched that title to a canonical
/// title, which is never empty.
pub open spec fn matched(
    record: LibraryGameView,
    index: Map<Seq<char>, Seq<char>>,
    canonical: Option<Seq<char>>,
) -> bool {
    &&& index.contains_key(record.app_name)
    &&& canonical is Some
    &&& canonical.unwrap().len() > 0
}

/// Record `i` is taken into the result.
pub open spec fn accepted(
    records: Seq<LibraryGameView>,
    index: Map<Seq<char>, Seq<char>>,
    resolutions: Seq<ResolutionView>,
    i: int,
) -> bool {
    0 <= i < records.len() && matched(records[i], index, canonical_at(resolutions, i))
}

/// The entry that record `i` contributes under its canonical title.
pub open spec fn game_at(
    records: Seq<LibraryGameView>,
    resolutions: Seq<ResolutionView>,
    i: int,
) -> LauncherGameView {
    LauncherGameView {
        install_dir: Some(records[i].folder_name),
        prefix: prefix_at(resolutions, i),
        platform: Some(os_of_name(records[i].platform)),
    }
}

/// The games found among the first `n` records: each accepted record is put
/// under its canonical title, a later one over an earlier one.
pub open spec fn scan_model(
    records: Seq<LibraryGameView>,
    index: Map<Seq<char>, Seq<char>>,
    resolutions: Seq<ResolutionView>,
    n: int,
) -> Map<Seq<char>, LauncherGameView>
    decreases n,
{
    if n <= 0 {
        Map::empty()
    } else {
        let before = scan_model(records, index, resolutions, n - 1);
        if accepted(records, index, resolutions, n - 1) {
            before.insert(
                canonical_at(resolutions, n - 1).unwrap(),
                game_at(records, resolutions, n - 1),
            )
        } else {
            before
        }
    }
}

/// The canonical titles found among the first `n` records, in the order in
/// which each was first found.
pub open spec fn scan_order(
    records: Seq<LibraryGameView>,
    index: Map<Seq<char>, Seq<char>>,
    resolutions: Seq<ResolutionView>,
    n: int,
) -> Seq<Seq<char>>
    decreases n,
{
    if n <= 0 {
        Seq::empty()
    } else {
        let before = scan_order(records, index, resolutions, n - 1);
        let title = canonical_at(resolutions, n - 1).unwrap();
        if accepted(records, index, resolutions, n - 1) && !scan_model(
            records,
            index,
            resolutions,
            n - 1,
        ).contains_key(title) {
            before.push(title)
        } else {
            before
        }
    }
}

/// The question to put to the title database for `record`: the display
/// title that the index holds for the record's identifier, as the only
/// candidate, to be normalized. No question where the index has no title for
/// it.
pub fn title_query(index: &GameTitleIndex, record: &LibraryGame) -> (result: Option<TitleQuery>)
    requires
        index.wf(),
    ensures
        match result {
            Some(query) => {
                &&& index@.contains_key(record@.app_name)
                &&& query.names@.len() == 1
                &&& query.names@[0]@ == index@[record@.app_name]
                &&& query.normalized
            },
            None => !index@.contains_key(record@.app_name),
        },
{
    match index.get(&record.app_name) {
        Some(title) => {
            let mut names: Vec<String> = Vec::new();
            names.push(title.clone());
            Some(TitleQuery { names, normalized: true })
        },
        None => None,
    }
}

/// What to hand to the probe for the prefix directory of `record`, once the
/// title database has answered `canonical` for it: the display title from
/// the index, the record's platform in lower case, and its identifier.
/// Nothing where the record is not taken into the result, so that no probe is
/// made for it.
pub fn prefix_probe(
    index: &GameTitleIndex,
    record: &LibraryGame,
    canonical: &Option<String>,
) -> (result: Option<PrefixProbe>)
    requires
        index.wf(),
    ensures
        match result {
            Some(probe) => {
                &&& matched(record@, index@, optional_text(*canonical))
                &&& probe.title@ == index@[record@.app_name]
                &&& probe.platform@ == lowercase(record@.platform)
                &&& probe.app_name@ == record@.app_name
            },
            None => !matched(record@, index@, optional_text(*canonical)),
        },
{
    let found = match canonical {
        Some(title) => !title.as_str().is_empty(),
        None => false,
    };
    if !found {
        return None;
    }
    match index.get(&record.app_name) {
        Some(title) => Some(
            PrefixProbe {
                title: title.clone(),
                platform: to_lowercase(record.install.platform.as_str()),
                app_name: record.app_name.clone(),
            },
        ),
        None => None,
    }
}

/// Scans `records` against a title index that is supplied apart from them.
/// `resolutions[i]` is what the outside answered for `records[i]`; a record
/// without an answer counts as not matched.
///
/// The result holds, for each canonical title that an accepted record was
/// matched to, the data of the last such record, and lists the titles in the
/// order in which each was first found.
pub fn scan_with_index(
    records: &Vec<LibraryGame>,
    index: &GameTitleIndex,
    resolutions: &Vec<Resolution>,
) -> (games: TitleMap<LauncherGame>)
    requires
        index.wf(),
    ensures
        games.wf(),
        game_views(games@) == scan_model(
            record_views(records@),
            index@,
            resolution_views(resolutions@),
            records@.len() as int,
        ),
        games.keys() == scan_order(
            record_views(records@),
            index@,
            resolution_views(resolutions@),
            records@.len() as int,
        ),
        forall|title: Seq<char>| #[trigger] games@.contains_key(title) ==> title.len() > 0,
{
    let mut games: TitleMap<LauncherGame> = TitleMap::new();
    let ghost views = record_views(records@);
    let ghost answers = resolution_views(resolutions@);
    assert(game_views(games@) =~= Map::<Seq<char>, LauncherGameView>::empty());
    let mut i: usize = 0;
    while i < records.len()
        invariant
            i <= records@.len(),
            index.wf(),
            games.wf(),
            views == record_views(records@),
            answers == resolution_views(resolutions@),
            game_views(games@) == scan_model(views, index@, answers, i as int),
            games.keys() == scan_order(views, index@, answers, i as int),
        decreases records@.len() - i,
    {
        let record = &records[i];
        assert(views[i as int] == record@);
        if i < resolutions.len() && index.get(&record.app_name).is_some() {
            let resolution = &resolutions[i];
            assert(answers[i as int] == resolution@);
            match &resolution.canonical {
                Some(title) => {
                    if !title.as_str().is_empty() {
                        let game = LauncherGame {
                            install_dir: Some(record.folder_name.clone()),
                            prefix: copy_optional_text(&resolution.prefix),
                            platform: Some(Os::from_name(record.install.platform.as_str())),
                        };
                        let ghost before = games@;
                        games.insert(title.clone(), game);
                        assert(game_views(games@) =~= game_views(before).insert(title@, game@));
                    }
                },
                None => {},
            }
        }
        i += 1;
    }
    proof {
        lemma_titles_not_empty(views, index@, answers, records@.len() as int);
        assert forall|title: Seq<char>| #[trigger] games@.contains_key(title) implies title.len()
            > 0 by {
            assert(game_views(games@).contains_key(title));
        }
    }
    games
}

/// Scans the records of one manifest. The title index is built from the same
/// records; an empty library gives an empty result at once.
pub fn scan(records: &Vec<LibraryGame>, resolutions: &Vec<Resolution>) -> (games: TitleMap<
    LauncherGame,
>)
    ensures
        games.wf(),
        game_views(games@) == scan_model(
            record_views(records@),
            index_of(record_views(records@)),
            resolution_views(resolutions@),
            records@.len() as int,
        ),
        games.keys() == scan_order(
            record_views(records@),
            index_of(record_views(records@)),
            resolution_views(resolutions@),
            records@.len() as int,
        ),
        forall|title: Seq<char>| #[trigger] games@.contains_key(title) ==> title.len() > 0,
{
    if records.len() == 0 {
        let games: TitleMap<LauncherGame> = TitleMap::new();
        assert(game_views(games@) =~= Map::<Seq<char>, LauncherGameView>::empty());
        return games;
    }
    let index = GameTitleIndex::from_records(records);
    scan_with_index(records, &index, resolutions)
}

/// Record `i` is passed over as unrecognized: the index holds a display
/// title for it, but the title database matched no canonical title.
pub open spec fn unrecognized_at(
    records: Seq<LibraryGameView>,
    index: Map<Seq<char>, Seq<char>>,
    resolutions: Seq<ResolutionView>,
    i: int,
) -> bool {
    &&& 0 <= i < records.len()
    &&& index.contains_key(records[i].app_name)
    &&& !accepted(records, index, resolutions, i)
}

/// The positions of the records that a scan passes over as unrecognized, in
/// rising order, for the caller to report.
pub fn unrecognized(
    records: &Vec<LibraryGame>,
    index: &GameTitleIndex,
    resolutions: &Vec<Resolution>,
) -> (positions: Vec<usize>)
    requires
        index.wf(),
    ensures
        forall|k: int, l: int| 0 <= k < l < positions@.len() ==> positions@[k] < positions@[l],
        forall|k: int|
            0 <= k < positions@.len() ==> unrecognized_at(
                record_views(records@),
                index@,
                resolution_views(resolutions@),
                #[trigger] positions@[k] as int,
            ),
        forall|i: int|
            #[trigger] unrecognized_at(
                record_views(records@),
                index@,
                resolution_views(resolutions@),
                i,
            ) ==> positions@.contains(i as usize),
{
    let mut positions: Vec<usize> = Vec::new();
    let ghost views = record_views(records@);
    let ghost answers = resolution_views(resolutions@);
    let mut i: usize = 0;
    while i < records.len()
        invariant
            i <= records@.len(),
            index.wf(),
            views == record_views(records@),
            answers == resolution_views(resolutions@),
            forall|k: int, l: int| 0 <= k < l < positions@.len() ==> positions@[k] < positions@[l],
            forall|k: int|
                0 <= k < positions@.len() ==> (#[trigger] positions@[k]) < i && unrecognized_at(
                    views,
                    index@,
                    answers,
                    positions@[k] as int,
                ),
            forall|j: int|
                0 <= j < i && #[trigger] unrecognized_at(views, index@, answers, j)
                    ==> positions@.contains(j as usize),
        decreases records@.len() - i,
    {
        let record = &records[i];
        assert(views[i as int] == record@);
        if index.get(&record.app_name).is_some() {
            let matched = if i < resolutions.len() {
                assert(answers[i as int] == resolutions@[i as int]@);
                match &resolutions[i].canonical {
                    Some(title) => !title.as_str().is_empty(),
                    None => false,
                }
            } else {
                false
            };
            if !matched {
                let ghost before = positions@;
                positions.push(i);
                assert forall|j: int|
                    0 <= j < i + 1 && #[trigger] unrecognized_at(
                        views,
                        index@,
                        answers,
                        j,
                    ) implies positions@.contains(j as usize) by {
                    if j < i {
                        let k = choose|k: int| 0 <= k < before.len() && before[k] == j as usize;
                        assert(positions@[k] == j as usize);
                    } else {
                        assert(positions@[before.len() as int] == i);
                    }
                }
            }
        }
        i += 1;
    }
    positions
}

/// Every game of a result comes from a record: one whose identifier the
/// index holds and which was matched to the game's title. A record whose
/// identifier is not in the index therefore contributes nothing.
pub proof fn lemma_entry_origin(
    records: Seq<LibraryGameView>,
    index: Map<Seq<char>, Seq<char>>,
    resolutions: Seq<ResolutionView>,
    n: int,
    title: Seq<char>,
)
    requires
        scan_model(records, index, resolutions, n).contains_key(title),
    ensures
        exists|i: int|
            0 <= i < n && #[trigger] accepted(records, index, resolutions, i) && canonical_at(
                resolutions,
                i,
            ) == Some(title) && scan_model(records, index, resolutions, n)[title] == game_at(
                records,
                resolutions,
                i,
            ),
    decreases n,
{
    if n > 0 {
        if accepted(records, index, resolutions, n - 1) && canonical_at(resolutions, n - 1)
            == Some(title) {
            assert(accepted(records, index, resolutions, n - 1));
        } else {
            lemma_entry_origin(records, index, resolutions, n - 1, title);
            let i = choose|i: int|
                0 <= i < n - 1 && #[trigger] accepted(records, index, resolutions, i)
                    && canonical_at(resolutions, i) == Some(title) && scan_model(
                    records,
                    index,
                    resolutions,
                    n - 1,
                )[title] == game_at(records, resolutions, i);
            assert(accepted(records, index, resolutions, i));
        }
    }
}

/// No game of a result stands under an empty title.
pub proof fn lemma_titles_not_empty(
    records: Seq<LibraryGameView>,
    index: Map<Seq<char>, Seq<char>>,
    resolutions: Seq<ResolutionView>,
    n: int,
)
    ensures
        forall|title: Seq<char>| #[trigger]
            scan_model(records, index, resolutions, n).contains_key(title) ==> title.len() > 0,
{
    assert forall|title: Seq<char>| #[trigger]
        scan_model(records, index, resolutions, n).contains_key(title) implies title.len()
        > 0 by {
        lemma_entry_origin(records, index, resolutions, n, title);
    }
}

/// A title that is matched only to records whose identifiers the index does
/// not hold is not in the result.
pub proof fn lemma_unindexed_records_excluded(
    records: Seq<LibraryGameView>,
    index: Map<Seq<char>, Seq<char>>,
    resolutions: Seq<ResolutionView>,
    title: Seq<char>,
)
    requires
        forall|i: int|
            0 <= i < records.len() && canonical_at(resolutions, i) == Some(title)
                ==> !index.contains_key(#[trigger] records[i].app_name),
    ensures
        !scan_model(records, index, resolutions, records.len() as int).contains_key(title),
{
    if scan_model(records, index, resolutions, records.len() as int).contains_key(title) {
        lemma_entry_origin(records, index, resolutions, records.len() as int, title);
    }
}

/// Where several records are matched to one title, the result holds the data
/// of the last of them: record `i` stands under `title` after `n` records if
/// no accepted record between them is matched to the same title.
pub proof fn lemma_last_record_wins(
    records: Seq<LibraryGameView>,
    index: Map<Seq<char>, Seq<char>>,
    resolutions: Seq<ResolutionView>,
    i: int,
    n: int,
    title: Seq<char>,
)
    requires
        0 <= i < n,
        accepted(records, index, resolutions, i),
        canonical_at(resolutions, i) == Some(title),
        forall|j: int|
            i < j < n && #[trigger] accepted(records, index, resolutions, j) ==> canonical_at(
                resolutions,
                j,
            ) != Some(title),
    ensures
        scan_model(records, index, resolutions, n).contains_key(title),
        scan_model(records, index, resolutions, n)[title] == game_at(records, resolutions, i),
    decreases n,
{
    if n > i + 1 {
        lemma_last_record_wins(records, index, resolutions, i, n - 1, title);
    }
}

/// The titles listed are the titles held, each listed once: a title that
/// several records are matched to has exactly one entry.
pub proof fn lemma_order_lists_titles(
    records: Seq<LibraryGameView>,
    index: Map<Seq<char>, Seq<char>>,
    resolutions: Seq<ResolutionView>,
    n: int,
)
    ensures
        scan_order(records, index, resolutions, n).no_duplicates(),
        forall|title: Seq<char>|
            scan_order(records, index, resolutions, n).contains(title) <==> scan_model(
                records,
                index,
                resolutions,
                n,
            ).contains_key(title),
    decreases n,
{
    let order = scan_order(records, index, resolutions, n);
    let model = scan_model(records, index, resolutions, n);
    if n > 0 {
        lemma_order_lists_titles(records, index, resolutions, n - 1);
        let before = scan_order(records, index, resolutions, n - 1);
        let held = scan_model(records, index, resolutions, n - 1);
        let new_title = canonical_at(resolutions, n - 1).unwrap();
        if accepted(records, index, resolutions, n - 1) && !held.contains_key(new_title) {
            assert(order == before.push(new_title));
            assert(order[before.len() as int] == new_title);
            assert forall|i: int, j: int| 0 <= i < order.len() && 0 <= j < order.len() && i != j
                implies order[i] != order[j] by {
                if i < before.len() {
                    assert(before.contains(before[i]));
                }
                if j < before.len() {
                    assert(before.contains(before[j]));
                }
            }
            assert forall|title: Seq<char>| order.contains(title) <==> model.contains_key(
                title,
            ) by {
                if before.contains(title) {
                    let k = choose|k: int| 0 <= k < before.len() && before[k] == title;
                    assert(order[k] == title);
                }
            }
        } else {
            assert forall|title: Seq<char>| order.contains(title) <==> model.contains_key(
                title,
            ) by {}
        }
    } else {
        assert forall|title: Seq<char>| !order.contains(title) by {}
    }
}

/// Where each of the first `n` records is accepted and no two of them are
/// matched to the same title, the result has exactly `n` entries: the `i`-th
/// is keyed by the title that record `i` was matched to and holds that
/// record's data.
pub proof fn lemma_distinct_titles_all_kept(
    records: Seq<LibraryGameView>,
    index: Map<Seq<char>, Seq<char>>,
    resolutions: Seq<ResolutionView>,
    n: int,
)
    requires
        0 <= n,
        forall|i: int| 0 <= i < n ==> #[trigger] accepted(records, index, resolutions, i),
        forall|i: int, j: int|
            0 <= i < j < n ==> canonical_at(resolutions, i) != canonical_at(resolutions, j),
    ensures
        scan_order(records, index, resolutions, n).len() == n,
        forall|i: int|
            0 <= i < n ==> {
                let title = canonical_at(resolutions, i).unwrap();
                &&& scan_order(records, index, resolutions, n)[i] == title
                &&& scan_model(records, index, resolutions, n).contains_key(title)
                &&& #[trigger] game_at(records, resolutions, i) == scan_model(
                    records,
                    index,
                    resolutions,
                    n,
                )[title]
            },
    decreases n,
{
    if n > 0 {
        lemma_distinct_titles_all_kept(records, index, resolutions, n - 1);
        let held = scan_model(records, index, resolutions, n - 1);
        let new_title = canonical_at(resolutions, n - 1).unwrap();
        assert(accepted(records, index, resolutions, n - 1));
        if held.contains_key(new_title) {
            lemma_entry_origin(records, index, resolutions, n - 1, new_title);
        }
        assert forall|i: int| 0 <= i < n implies {
            let title = canonical_at(resolutions, i).unwrap();
            &&& scan_order(records, index, resolutions, n)[i] == title
            &&& scan_model(records, index, resolutions, n).contains_key(title)
            &&& #[trigger] game_at(records, resolutions, i) == scan_model(
                records,
                index,
                resolutions,
                n,
            )[title]
        } by {
            assert(accepted(records, index, resolutions, i));
            lemma_last_record_wins(
                records,
                index,
                resolutions,
                i,
                n,
                canonical_at(resolutions, i).unwrap(),
            );
        }
    }
}

/// A library of `n` games, each matched to a canonical title of its own,
/// scans to exactly `n` entries, in the order of the manifest, each under the
/// title that its record was matched to. The index is the one built from the
/// records themselves, which holds every one of them.
pub proof fn lemma_well_titled_library_all_kept(
    records: Seq<LibraryGameView>,
    resolutions: Seq<ResolutionView>,
)
    requires
        forall|i: int|
            0 <= i < records.len() ==> (#[trigger] canonical_at(resolutions, i)) is Some
                && canonical_at(resolutions, i).unwrap().len() > 0,
        forall|i: int, j: int|
            0 <= i < j < records.len() ==> canonical_at(resolutions, i) != canonical_at(
                resolutions,
                j,
            ),
    ensures
        scan_order(records, index_of(records), resolutions, records.len() as int).len()
            == records.len(),
        forall|i: int|
            0 <= i < records.len() ==> {
                let title = canonical_at(resolutions, i).unwrap();
                let n = records.len() as int;
                &&& scan_order(records, index_of(records), resolutions, n)[i] == title
                &&& scan_model(records, index_of(records), resolutions, n).contains_key(title)
                &&& #[trigger] game_at(records, resolutions, i) == scan_model(
                    records,
                    index_of(records),
                    resolutions,
                    n,
                )[title]
            },
{
    assert forall|i: int| 0 <= i < records.len() implies #[trigger] accepted(
        records,
        index_of(records),
        resolutions,
        i,
    ) by {
        lemma_index_holds_every_record(records, i);
        assert(canonical_at(resolutions, i) is Some);
    }
    lemma_distinct_titles_all_kept(
        records,
        index_of(records),
        resolutions,
        records.len() as int,
    );
}

/// Scanning the same records with the same answers again gives the same
/// result: two results that both meet the contract of a scan hold the same
/// games under the same titles, in the same order.
pub proof fn lemma_scan_repeatable(
    first: TitleMap<LauncherGame>,
    second: TitleMap<LauncherGame>,
    records: Seq<LibraryGameView>,
    index: Map<Seq<char>, Seq<char>>,
    resolutions: Seq<ResolutionView>,
)
    requires
        game_views(first@) == scan_model(records, index, resolutions, records.len() as int),
        first.keys() == scan_order(records, index, resolutions, records.len() as int),
        game_views(second@) == scan_model(records, index, resolutions, records.len() as int),
        second.keys() == scan_order(records, index, resolutions, records.len() as int),
    ensures
        first.keys() == second.keys(),
        game_views(first@) == game_views(second@),
        forall|title: Seq<char>|
            first@.contains_key(title) <==> #[trigger] second@.contains_key(title),
        forall|title: Seq<char>|
            first@.contains_key(title) ==> first@[title]@ == (#[trigger] second@[title])@,
{
    assert forall|title: Seq<char>| first@.contains_key(title) <==> #[trigger] second@.contains_key(
        title,
    ) by {
        assert(game_views(first@).contains_key(title) == first@.contains_key(title));
        assert(game_views(second@).contains_key(title) == second@.contains_key(title));
    }
    assert forall|title: Seq<char>| first@.contains_key(title) implies first@[title]@ == (
    #[trigger] second@[title])@ by {
        assert(game_views(first@).contains_key(title));
        assert(game_views(second@).contains_key(title));
        assert(game_views(first@)[title] == first@[title]@);
        assert(game_views(second@)[title] == second@[title]@);
    }
}

} // verus!
