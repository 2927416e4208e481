//! The records of a launcher's library manifest and the index from
//! identifiers to display titles that a scan builds from them.

use crate::title_map::TitleMap;
use vstd::prelude::*;

verus! {

/// How a game was installed.
#[derive(Clone, Debug, PartialEq, Eq)]
pub struct Install {
    /// The platform the installed build targets, as the launcher names it.
    pub platform: String,
}

/// One game of a library manifest.
#[derive(Clone, Debug, PartialEq, Eq)]
pub struct LibraryGame {
    /// This is an opaque ID, not the human-readable title.
    pub app_name: String,
    /// The title as the launcher reports it.
    pub title: String,
    pub install: Install,
    /// The name of the folder that the game is installed in.
    pub folder_name: String,
}

/// What a record says, as plain text.
pub struct LibraryGameView {
    pub app_name: Seq<char>,
    pub title: Seq<char>,
    pub platform: Seq<char>,
    pub folder_name: Seq<char>,
}

impl View for LibraryGame {
    type V = LibraryGameView;

    open spec fn view(&self) -> LibraryGameView {
        LibraryGameView {
            app_name: self.app_name@,
            title: self.title@,
            platform: self.install.platform@,
            folder_name: self.folder_name@,
        }
    }
}

/// What a list of records says, record by record.
pub open spec fn record_views(records: Seq<LibraryGame>) -> Seq<LibraryGameView> {
    Seq::new(records.len(), |i: int| records[i]@)
}

/// What came of reading and decoding a manifest file.
#[derive(Clone, Debug, PartialEq, Eq)]
pub enum Manifest {
    /// There is no file at the manifest's place.
    Missing,
    /// The file is there but does not hold a library; the text says why.
    Malformed(String),
    /// The games that the file declares, in its order.
    Parsed(Vec<LibraryGame>),
}

/// The records that a manifest contributes: its games where it was decoded,
/// none where it is missing or malformed.
pub open spec fn library_records(manifest: Manifest) -> Seq<LibraryGame> {
    match manifest {
        Manifest::Parsed(games) => games@,
        _ => Seq::empty(),
    }
}

/// Where the manifest of sideloaded games lies under a root: the directory,
/// then the file.
pub fn library_location() -> (result: (&'static str, &'static str))
    ensures
        result.0@ == "sideload_apps"@,
        result.1@ == "library.json"@,
{
    ("sideload_apps", "library.json")
}

/// The library of a root, given what came of reading its manifest. A missing
/// or malformed manifest is an empty library, never a failure; a decoded one
/// gives its games unchanged and in order.
pub fn get_library(manifest: Manifest) -> (records: Vec<LibraryGame>)
    ensures
        records@ == library_records(manifest),
        !(manifest is Parsed) ==> records@.len() == 0,
{
    match manifest {
        Manifest::Parsed(games) => games,
        Manifest::Missing => Vec::new(),
        Manifest::Malformed(_) => Vec::new(),
    }
}

/// The index that a list of records gives: each identifier with the title of
/// the last record that carries it.
pub open spec fn index_of(records: Seq<LibraryGameView>) -> Map<Seq<char>, Seq<char>>
    decreases records.len(),
{
    if records.len() == 0 {
        Map::empty()
    } else {
        index_of(records.drop_last()).insert(records.last().app_name, records.last().title)
    }
}

/// The index of a list of records holds the identifier of each of them, and
/// under it the title of the last record that carries the identifier.
pub proof fn lemma_index_holds_records(records: Seq<LibraryGameView>, i: int)
    requires
        0 <= i < records.len(),
        forall|j: int| i < j < records.len() ==> records[j].app_name != records[i].app_name,
    ensures
        index_of(records).contains_key(records[i].app_name),
        index_of(records)[records[i].app_name] == records[i].title,
    decreases records.len(),
{
    if i < records.len() - 1 {
        lemma_index_holds_records(records.drop_last(), i);
    }
}

/// The index of a list of records holds the identifier of every one of them.
pub proof fn lemma_index_holds_every_record(records: Seq<LibraryGameView>, i: int)
    requires
        0 <= i < records.len(),
    ensures
        index_of(records).contains_key(records[i].app_name),
    decreases records.len(),
{
    if i < records.len() - 1 {
        lemma_index_holds_every_record(records.drop_last(), i);
    }
}

/// A mapping from a game's identifier to its display title, built once for a
/// scan.
pub struct GameTitleIndex {
    titles: TitleMap<String>,
}

impl View for GameTitleIndex {
    type V = Map<Seq<char>, Seq<char>>;

    closed spec fn view(&self) -> Map<Seq<char>, Seq<char>> {
        self.titles@.map_values(|title: String| title@)
    }
}

impl GameTitleIndex {
    /// Every identifier is held once.
    pub closed spec fn wf(&self) -> bool {
        self.titles.wf()
    }

    /// An index without entries.
    pub fn new() -> (result: Self)
        ensures
            result.wf(),
            result@ == Map::<Seq<char>, Seq<char>>::empty(),
    {
        let result = GameTitleIndex { titles: TitleMap::new() };
        assert(result@ =~= Map::<Seq<char>, Seq<char>>::empty());
        result
    }

    /// Records `title` for `app_name`, in place of an earlier title for it.
    pub fn insert(&mut self, app_name: String, title: String)
        requires
            old(self).wf(),
        ensures
            final(self).wf(),
            final(self)@ == old(self)@.insert(app_name@, title@),
    {
        let ghost key = app_name@;
        let ghost value = title@;
        self.titles.insert(app_name, title);
        assert(self@ =~= old(self)@.insert(key, value));
    }

    /// The index of a list of records. Where two records share an
    /// identifier, the later one's title stands.
    pub fn from_records(records: &Vec<LibraryGame>) -> (result: Self)
        ensures
            result.wf(),
            result@ == index_of(record_views(records@)),
    {
        let mut result = GameTitleIndex::new();
        let mut i: usize = 0;
        while i < records.len()
            invariant
                i <= records@.len(),
                result.wf(),
                result@ == index_of(record_views(records@).take(i as int)),
            decreases records@.len() - i,
        {
            proof {
                let views = record_views(records@);
                assert(views.take(i + 1).drop_last() =~= views.take(i as int));
            }
            result.insert(records[i].app_name.clone(), records[i].title.clone());
            i += 1;
        }
        proof {
            let views = record_views(records@);
            assert(views.take(views.len() as int) =~= views);
        }
        result
    }

    /// The display title recorded for `app_name`, if there is one.
    pub fn get(&self, app_name: &String) -> (result: Option<&String>)
        requires
            self.wf(),
        ensures
            match result {
                Some(title) => self@.contains_key(app_name@) && title@ == self@[app_name@],
                None => !self@.contains_key(app_name@),
            },
    {
        self.titles.get(app_name)
    }

    /// Whether the index holds no identifier.
    pub fn is_empty(&self) -> (result: bool)
        requires
            self.wf(),
        ensures
            result == (self@ == Map::<Seq<char>, Seq<char>>::empty()),
    {
        proof {
            self.titles.lemma_keys();
            if self.titles.keys().len() == 0 {
                assert forall|key: Seq<char>| !self.titles@.contains_key(key) by {
                    assert(!self.titles.keys().contains(key));
                }
                assert(self@ =~= Map::<Seq<char>, Seq<char>>::empty());
            } else {
                assert(self.titles.keys().contains(self.titles.keys()[0]));
                assert(self@.contains_key(self.titles.keys()[0]));
            }
        }
        self.titles.is_empty()
    }
}

} // verus!
