//! The folder mirror: which folders the dashboards of a cycle need, and what
//! each instance answered when asked to provide them.

use crate::api::dashboards::{texts, Folder, FolderView, FullDashboard};
use crate::dashboard_state::{decision_views, DecisionView};
use vstd::hash_map::StringHashMap;
use vstd::prelude::*;
use vstd::string::*;

verus! {

/// The title of the folder that every instance has from the start. It is never
/// mirrored.
pub const ROOT_FOLDER: &'static str = "General";

/// Whether `title` names the folder that every instance has from the start.
pub open spec fn is_root_title(title: Seq<char>) -> bool {
    title == "General"@
}

/// `list` with `item` at its end, unless `list` holds it already.
pub open spec fn add_distinct(list: Seq<Seq<char>>, item: Seq<char>) -> Seq<Seq<char>> {
    if list.contains(item) {
        list
    } else {
        list.push(item)
    }
}

/// The folder that a decision needs on every instance: the folder title of the
/// dashboard it brings, unless that is the root folder. A deletion needs none.
pub open spec fn needed_folder(decision: DecisionView) -> Option<Seq<char>> {
    match decision.1 {
        Some(winner) => match winner.meta.folder_title {
            Some(title) => if is_root_title(title) {
                None
            } else {
                Some(title)
            },
            None => None,
        },
        None => None,
    }
}

/// The folders that the decisions need, each once, in the order of first need.
pub open spec fn mirrored_folders(decisions: Seq<DecisionView>) -> Seq<Seq<char>>
    decreases decisions.len(),
{
    if decisions.len() == 0 {
        Seq::empty()
    } else {
        let rest = mirrored_folders(decisions.drop_last());
        match needed_folder(decisions.last()) {
            Some(title) => add_distinct(rest, title),
            None => rest,
        }
    }
}

/// Whether `title` names the folder that every instance has from the start.
pub fn is_root(title: &String) -> (r: bool)
    ensures
        r == is_root_title(title@),
{
    let root = String::from_str(ROOT_FOLDER);
    *title == root
}

/// Whether `list` holds the text of `item`.
pub fn holds(list: &Vec<String>, item: &String) -> (r: bool)
    ensures
        r == texts(list@).contains(item@),
{
    let mut i: usize = 0;
    while i < list.len()
        invariant
            i <= list.len(),
            forall|k: int| 0 <= k < i ==> texts(list@)[k] != item@,
        decreases list.len() - i,
    {
        if list[i] == *item {
            assert(texts(list@)[i as int] == item@);
            return true;
        }
        i += 1;
    }
    false
}

/// Puts a copy of `item` at the end of `list`, unless `list` holds it already.
pub fn push_distinct(list: &mut Vec<String>, item: &String)
    ensures
        texts(final(list)@) == add_distinct(texts(old(list)@), item@),
{
    if !holds(list, item) {
        list.push(item.clone());
        assert(texts(list@) =~= texts(old(list)@).push(item@));
    }
}

/// The folders that the decisions of a cycle need on every instance.
pub fn folders_to_mirror(decisions: &Vec<(String, Option<FullDashboard>)>) -> (titles: Vec<String>)
    ensures
        texts(titles@) == mirrored_folders(decision_views(decisions@)),
{
    let ghost views = decision_views(decisions@);
    let mut titles: Vec<String> = Vec::new();
    assert(views.take(0) =~= Seq::empty());
    assert(texts(titles@) =~= Seq::empty());
    let mut i: usize = 0;
    while i < decisions.len()
        invariant
            i <= decisions.len(),
            views == decision_views(decisions@),
            texts(titles@) == mirrored_folders(views.take(i as int)),
        decreases decisions.len() - i,
    {
        proof {
            assert(views.take(i as int + 1).drop_last() =~= views.take(i as int));
            assert(views.take(i as int + 1).last() == views[i as int]);
        }
        match &decisions[i].1 {
            Some(winner) => match &winner.meta.folder_title {
                Some(title) => {
                    if !is_root(title) {
                        push_distinct(&mut titles, title);
                    }
                },
                None => {},
            },
            None => {},
        }
        i += 1;
    }
    assert(views.take(i as int) =~= views);
    titles
}

/// Whatever the decisions, no folder is asked for twice, the root folder is
/// never asked for, and a folder is asked for exactly if some decision needs
/// it. So each instance is asked once for each folder.
pub proof fn lemma_mirrored_folders(decisions: Seq<DecisionView>)
    ensures
        mirrored_folders(decisions).no_duplicates(),
        forall|title: Seq<char>|
            mirrored_folders(decisions).contains(title) <==> exists|k: int|
                0 <= k < decisions.len() && needed_folder(#[trigger] decisions[k]) == Some(title),
        !mirrored_folders(decisions).contains("General"@),
    decreases decisions.len(),
{
    if decisions.len() > 0 {
        let front = decisions.drop_last();
        let rest = mirrored_folders(front);
        let all = mirrored_folders(decisions);
        lemma_mirrored_folders(front);
        let need = needed_folder(decisions.last());
        assert forall|title: Seq<char>| all.contains(title) implies exists|k: int|
            0 <= k < decisions.len() && needed_folder(#[trigger] decisions[k]) == Some(title) by {
            if rest.contains(title) {
                let k = choose|k: int|
                    0 <= k < front.len() && needed_folder(#[trigger] front[k]) == Some(title);
                assert(decisions[k] == front[k]);
            } else {
                let m = choose|m: int| 0 <= m < all.len() && all[m] == title;
                assert(need == Some(title));
                assert(decisions[decisions.len() - 1] == decisions.last());
            }
        }
        assert forall|title: Seq<char>|
            (exists|k: int|
                0 <= k < decisions.len() && needed_folder(#[trigger] decisions[k]) == Some(
                    title,
                )) implies all.contains(title) by {
            let k = choose|k: int|
                0 <= k < decisions.len() && needed_folder(#[trigger] decisions[k]) == Some(title);
            if k < front.len() {
                assert(front[k] == decisions[k]);
                assert(rest.contains(title));
                let m = choose|m: int| 0 <= m < rest.len() && rest[m] == title;
                if need is Some && !rest.contains(need->0) {
                    assert(all[m] == rest[m]);
                }
            } else {
                if !rest.contains(title) {
                    assert(all.last() == title);
                }
            }
        }
        if all.contains("General"@) {
            let k = choose|k: int|
                0 <= k < decisions.len() && needed_folder(#[trigger] decisions[k]) == Some(
                    "General"@,
                );
            assert(false);
        }
    }
}

/// The folders of one instance, by title.
pub struct FolderTable {
    folders: StringHashMap<Folder>,
}

impl View for FolderTable {
    type V = Map<Seq<char>, FolderView>;

    closed spec fn view(&self) -> Map<Seq<char>, FolderView> {
        self.folders@.map_values(|f: Folder| f@)
    }
}

impl FolderTable {
    /// A table without folders.
    pub fn new() -> (table: FolderTable)
        ensures
            table@ == Map::<Seq<char>, FolderView>::empty(),
    {
        let table = FolderTable { folders: StringHashMap::new() };
        assert(table@ =~= Map::<Seq<char>, FolderView>::empty());
        table
    }

    /// Enters `folder` under its title; an earlier folder of that title is
    /// replaced.
    pub fn insert(&mut self, folder: Folder)
        ensures
            final(self)@ == old(self)@.insert(folder.title@, folder@),
    {
        let title = folder.title.clone();
        self.folders.insert(title, folder);
        assert(self@ =~= old(self)@.insert(folder.title@, folder@));
    }

    /// Enters what an instance answered when asked to provide a folder: the
    /// folder, or nothing where the instance failed to provide it.
    pub fn record(&mut self, answer: Option<Folder>)
        ensures
            final(self)@ == match answer {
                Some(folder) => old(self)@.insert(folder.title@, folder@),
                None => old(self)@,
            },
    {
        match answer {
            Some(folder) => self.insert(folder),
            None => {},
        }
    }

    /// The table that the answers of one instance make.
    pub fn from_answers(answers: &Vec<Option<Folder>>) -> (table: FolderTable)
        ensures
            table@ == table_of(answer_views(answers@)),
    {
        let ghost views = answer_views(answers@);
        let mut table = FolderTable::new();
        assert(views.take(0) =~= Seq::empty());
        let mut i: usize = 0;
        while i < answers.len()
            invariant
                i <= answers.len(),
                views == answer_views(answers@),
                table@ == table_of(views.take(i as int)),
            decreases answers.len() - i,
        {
            proof {
                assert(views.take(i as int + 1).drop_last() =~= views.take(i as int));
                assert(views.take(i as int + 1).last() == answer_view(answers@[i as int]));
            }
            match &answers[i] {
                Some(folder) => table.record(Some(folder.clone())),
                None => table.record(None),
            }
            i += 1;
        }
        assert(views.take(i as int) =~= views);
        table
    }

    /// The folder with the title `title`.
    pub fn get(&self, title: &str) -> (r: Option<&Folder>)
        ensures
            match r {
                Some(folder) => self@.contains_key(title@) && folder@ == self@[title@],
                None => !self@.contains_key(title@),
            },
    {
        self.folders.get(title)
    }
}

/// What an instance answered when asked to provide a folder: the view of the
/// folder, or nothing where it failed.
pub open spec fn answer_view(answer: Option<Folder>) -> Option<FolderView> {
    match answer {
        Some(folder) => Some(folder@),
        None => None,
    }
}

/// The views of the answers of one instance.
pub open spec fn answer_views(answers: Seq<Option<Folder>>) -> Seq<Option<FolderView>> {
    answers.map_values(|a: Option<Folder>| answer_view(a))
}

/// The table that the answers of one instance make: each folder that was
/// provided stands under its title, a later one in the place of an earlier
/// one of the same title; a failure adds nothing.
pub open spec fn table_of(answers: Seq<Option<FolderView>>) -> Map<Seq<char>, FolderView>
    decreases answers.len(),
{
    if answers.len() == 0 {
        Map::empty()
    } else {
        let rest = table_of(answers.drop_last());
        match answers.last() {
            Some(folder) => rest.insert(folder.title, folder),
            None => rest,
        }
    }
}

/// The answer is a folder with the title `title`.
pub open spec fn provides(answer: Option<FolderView>, title: Seq<char>) -> bool {
    answer is Some && answer->0.title == title
}

/// A table holds a title exactly if a folder of that title was provided, and
/// what it holds under a title is a folder that was provided under it.
pub proof fn lemma_table_holds_what_was_provided(answers: Seq<Option<FolderView>>)
    ensures
        forall|title: Seq<char>|
            table_of(answers).contains_key(title) <==> exists|k: int|
                0 <= k < answers.len() && provides(#[trigger] answers[k], title),
        forall|title: Seq<char>| #[trigger]
            table_of(answers).contains_key(title) ==> table_of(answers)[title].title == title
                && answers.contains(Some(table_of(answers)[title])),
    decreases answers.len(),
{
    if answers.len() > 0 {
        let front = answers.drop_last();
        let rest = table_of(front);
        let all = table_of(answers);
        lemma_table_holds_what_was_provided(front);
        assert forall|title: Seq<char>| all.contains_key(title) implies exists|k: int|
            0 <= k < answers.len() && provides(#[trigger] answers[k], title) by {
            if rest.contains_key(title) {
                let k = choose|k: int|
                    0 <= k < front.len() && provides(#[trigger] front[k], title);
                assert(answers[k] == front[k]);
            } else {
                assert(answers[answers.len() - 1] == answers.last());
            }
        }
        assert forall|title: Seq<char>|
            (exists|k: int|
                0 <= k < answers.len() && provides(#[trigger] answers[k], title)) implies all.contains_key(title) by {
            let k = choose|k: int|
                0 <= k < answers.len() && provides(#[trigger] answers[k], title);
            if k < front.len() {
                assert(front[k] == answers[k]);
                assert(rest.contains_key(title));
            }
        }
        assert forall|title: Seq<char>| #[trigger] all.contains_key(title) implies all[title].title
            == title && answers.contains(Some(all[title])) by {
            if provides(answers.last(), title) {
                assert(answers[answers.len() - 1] == Some(all[title]));
            } else {
                assert(rest.contains_key(title));
                let k = choose|k: int| 0 <= k < front.len() && front[k] == Some(rest[title]);
                assert(answers[k] == front[k]);
            }
        }
    }
}

/// The folder tables of the fleet, by the name of the instance.
pub struct FolderMap {
    tables: StringHashMap<FolderTable>,
}

impl View for FolderMap {
    type V = Map<Seq<char>, Map<Seq<char>, FolderView>>;

    closed spec fn view(&self) -> Map<Seq<char>, Map<Seq<char>, FolderView>> {
        self.tables@.map_values(|t: FolderTable| t@)
    }
}

impl FolderMap {
    /// A map without instances.
    pub fn new() -> (map: FolderMap)
        ensures
            map@ == Map::<Seq<char>, Map<Seq<char>, FolderView>>::empty(),
    {
        let map = FolderMap { tables: StringHashMap::new() };
        assert(map@ =~= Map::<Seq<char>, Map<Seq<char>, FolderView>>::empty());
        map
    }

    /// Enters the table of the instance `base_url`; an earlier table of that
    /// instance is replaced.
    pub fn insert(&mut self, base_url: String, table: FolderTable)
        ensures
            final(self)@ == old(self)@.insert(base_url@, table@),
    {
        self.tables.insert(base_url, table);
        assert(self@ =~= old(self)@.insert(base_url@, table@));
    }

    /// The table of the instance `base_url`.
    pub fn get(&self, base_url: &str) -> (r: Option<&FolderTable>)
        ensures
            match r {
                Some(table) => self@.contains_key(base_url@) && table@ == self@[base_url@],
                None => !self@.contains_key(base_url@),
            },
    {
        self.tables.get(base_url)
    }
}

} // verus!
