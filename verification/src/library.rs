//! The user's library: entries saved from the catalog, launched and removed.
//!
//! An entry is created once per item id and belongs to the library alone: it
//! stays when the catalog is rebuilt without its item.

use crate::clock::{decimal_digits, now_stamp};
use crate::models::{StoreItem, StoreItemView};
use crate::notify::Notice;
use vstd::prelude::*;

verus! {

/// Where an entry stands in its life. Removal is no state: it ends the entry.
#[derive(Clone, Copy, Debug, PartialEq, Eq, Structural)]
pub enum EntryState {
    Ready,
    Running,
}

impl EntryState {
    /// The name of the state.
    pub open spec fn label_text(self) -> Seq<char> {
        match self {
            EntryState::Ready => "ready"@,
            EntryState::Running => "running"@,
        }
    }

    pub fn label(&self) -> (name: &'static str)
        ensures
            name@ == self.label_text(),
    {
        match self {
            EntryState::Ready => "ready",
            EntryState::Running => "running",
        }
    }
}

/// One saved item.
#[derive(Debug)]
pub struct LibraryApp {
    pub id: String,
    pub name: String,
    pub category: String,
    pub provider_name: String,
    pub version: String,
    pub state: EntryState,
    pub last_launched: Option<String>,
}

/// What a [`LibraryApp`] holds, as mathematical values.
pub struct LibraryAppView {
    pub id: Seq<char>,
    pub name: Seq<char>,
    pub category: Seq<char>,
    pub provider_name: Seq<char>,
    pub version: Seq<char>,
    pub state: EntryState,
    pub last_launched: Option<Seq<char>>,
}

impl View for LibraryApp {
    type V = LibraryAppView;

    open spec fn view(&self) -> LibraryAppView {
        LibraryAppView {
            id: self.id@,
            name: self.name@,
            category: self.category@,
            provider_name: self.provider_name@,
            version: self.version@,
            state: self.state,
            last_launched: match self.last_launched {
                Some(stamp) => Some(stamp@),
                None => None,
            },
        }
    }
}

impl Clone for LibraryApp {
    fn clone(&self) -> (copy: Self)
        ensures
            copy@ == self@,
    {
        LibraryApp {
            id: self.id.clone(),
            name: self.name.clone(),
            category: self.category.clone(),
            provider_name: self.provider_name.clone(),
            version: self.version.clone(),
            state: self.state,
            last_launched: match &self.last_launched {
                Some(stamp) => Some(stamp.clone()),
                None => None,
            },
        }
    }
}

/// The views of a library's entries, in order.
pub open spec fn entry_views(entries: Seq<LibraryApp>) -> Seq<LibraryAppView> {
    entries.map_values(|entry: LibraryApp| entry@)
}

/// Whether the library holds an entry with this id.
pub open spec fn holds(library: Seq<LibraryAppView>, id: Seq<char>) -> bool {
    exists|i: int| 0 <= i < library.len() && (#[trigger] library[i]).id == id
}

/// The library's invariant: no two entries share an id. The empty library
/// has it, and saving, launching and removing keep it.
pub open spec fn distinct_ids(library: Seq<LibraryAppView>) -> bool {
    forall|i: int, j: int|
        0 <= i < j < library.len() ==> (#[trigger] library[i]).id != (#[trigger] library[j]).id
}

/// Whether `i` is the position of the first entry with this id.
pub open spec fn is_first_with(library: Seq<LibraryAppView>, id: Seq<char>, i: int) -> bool {
    &&& 0 <= i < library.len()
    &&& library[i].id == id
    &&& forall|j: int| 0 <= j < i ==> (#[trigger] library[j]).id != id
}

/// The position of the first entry with this id, if there is one.
pub open spec fn position_of(library: Seq<LibraryAppView>, id: Seq<char>) -> Option<int>
    decreases library.len(),
{
    if library.len() == 0 {
        None
    } else {
        match position_of(library.drop_last(), id) {
            Some(i) => Some(i),
            None => if library.last().id == id {
                Some(library.len() - 1)
            } else {
                None
            },
        }
    }
}

/// The entry that saving an item creates: ready, never launched, at the
/// version every entry starts with.
pub open spec fn entry_for(item: StoreItemView) -> LibraryAppView {
    LibraryAppView {
        id: item.id,
        name: item.name,
        category: item.category,
        provider_name: item.provider_name,
        version: "1.0.0"@,
        state: EntryState::Ready,
        last_launched: None,
    }
}

/// The library after saving an item: unchanged where it holds the item's id,
/// else with the item's entry at its end.
pub open spec fn after_save(library: Seq<LibraryAppView>, item: StoreItemView) -> Seq<
    LibraryAppView,
> {
    if holds(library, item.id) {
        library
    } else {
        library.push(entry_for(item))
    }
}

/// An entry after a launch at `stamp`.
pub open spec fn launched(entry: LibraryAppView, stamp: Seq<char>) -> LibraryAppView {
    LibraryAppView { state: EntryState::Running, last_launched: Some(stamp), ..entry }
}

/// The library after launching an id: the first entry with the id runs and
/// carries the stamp; unchanged where no entry has the id.
pub open spec fn after_launch(library: Seq<LibraryAppView>, id: Seq<char>, stamp: Seq<char>) -> Seq<
    LibraryAppView,
> {
    match position_of(library, id) {
        Some(i) => library.update(i, launched(library[i], stamp)),
        None => library,
    }
}

/// The library after removing an id: without the entries that carry it.
pub open spec fn after_remove(library: Seq<LibraryAppView>, id: Seq<char>) -> Seq<LibraryAppView> {
    library.filter(|entry: LibraryAppView| entry.id != id)
}

/// How many entries run.
pub open spec fn running_count(library: Seq<LibraryAppView>) -> nat {
    library.filter(|entry: LibraryAppView| entry.state == EntryState::Running).len()
}

/// `position_of` finds the first entry with the id, and none only where the
/// library holds none.
pub proof fn lemma_position_of(library: Seq<LibraryAppView>, id: Seq<char>)
    ensures
        match position_of(library, id) {
            Some(i) => is_first_with(library, id, i),
            None => !holds(library, id),
        },
        forall|i: int| is_first_with(library, id, i) ==> position_of(library, id) == Some(i),
    decreases library.len(),
{
    if library.len() > 0 {
        let earlier = library.drop_last();
        lemma_position_of(earlier, id);
        match position_of(earlier, id) {
            Some(i) => {
                assert(is_first_with(library, id, i)) by {
                    assert(library[i] == earlier[i]);
                    assert forall|j: int| 0 <= j < i implies (#[trigger] library[j]).id != id by {
                        assert(earlier[j].id != id);
                    }
                }
            },
            None => {
                assert forall|j: int| 0 <= j < earlier.len() implies (#[trigger] library[j]).id
                    != id by {
                    assert(earlier[j].id != id);
                }
            },
        }
        assert forall|i: int| is_first_with(library, id, i) implies position_of(library, id)
            == Some(i) by {
            match position_of(library, id) {
                Some(p) => {
                    if p < i {
                        assert(library[p].id != id);
                    } else if i < p {
                        assert(library[i].id != id);
                    }
                },
                None => {
                    assert(library[i].id == id);
                },
            }
        }
    }
}

fn find_entry(library: &Vec<LibraryApp>, id: &String) -> (found: Option<usize>)
    ensures
        match found {
            Some(i) => position_of(entry_views(library@), id@) == Some(i as int),
            None => position_of(entry_views(library@), id@) is None,
        },
{
    let ghost entries = entry_views(library@);
    let mut i: usize = 0;
    while i < library.len()
        invariant
            i <= library.len(),
            entries == entry_views(library@),
            forall|j: int| 0 <= j < i ==> (#[trigger] entries[j]).id != id@,
        decreases library.len() - i,
    {
        if library[i].id == *id {
            assert(entries[i as int].id == id@);
            proof {
                assert(is_first_with(entries, id@, i as int));
                lemma_position_of(entries, id@);
            }
            return Some(i);
        }
        i += 1;
    }
    proof {
        assert(!holds(entries, id@));
        lemma_position_of(entries, id@);
    }
    None
}

/// Saves an item: where the library holds an entry with the item's id, that
/// entry is handed back and nothing changes; else the item's entry is
/// created at the end of the library and handed back. `created` tells which.
pub fn save_entry(library: &mut Vec<LibraryApp>, item: &StoreItem) -> (saved: (LibraryApp, bool))
    ensures
        entry_views(final(library)@) == after_save(entry_views(old(library)@), item@),
        saved.1 == !holds(entry_views(old(library)@), item@.id),
        position_of(entry_views(final(library)@), item@.id) matches Some(i) && saved.0@
            == entry_views(final(library)@)[i],
        saved.1 ==> saved.0@ == entry_for(item@),
        !saved.1 ==> final(library)@ == old(library)@,
        distinct_ids(entry_views(old(library)@)) ==> distinct_ids(entry_views(final(library)@)),
{
    let ghost before = entry_views(library@);
    proof {
        lemma_position_of(before, item@.id);
        if distinct_ids(before) {
            lemma_save_keeps_distinct(before, item@);
        }
    }
    match find_entry(library, &item.id) {
        Some(i) => (library[i].clone(), false),
        None => {
            let entry = LibraryApp {
                id: item.id.clone(),
                name: item.name.clone(),
                category: item.category.clone(),
                provider_name: item.provider_name.clone(),
                version: "1.0.0".to_string(),
                state: EntryState::Ready,
                last_launched: None,
            };
            let copy = entry.clone();
            library.push(entry);
            proof {
                let after = entry_views(library@);
                assert(after =~= before.push(entry_for(item@)));
                assert(is_first_with(after, item@.id, before.len() as int));
                lemma_position_of(after, item@.id);
            }
            (copy, true)
        },
    }
}

/// Launches an id at `stamp`: the first entry with the id runs from now on
/// and carries the stamp as its last launch, whatever its state was, and is
/// handed back. Where no entry has the id, nothing changes.
pub fn launch_entry(library: &mut Vec<LibraryApp>, id: &str, stamp: String) -> (entry: Option<
    LibraryApp,
>)
    ensures
        entry_views(final(library)@) == after_launch(entry_views(old(library)@), id@, stamp@),
        match position_of(entry_views(old(library)@), id@) {
            Some(i) => entry matches Some(e) && e@ == launched(
                entry_views(old(library)@)[i],
                stamp@,
            ),
            None => entry is None && final(library)@ == old(library)@,
        },
        distinct_ids(entry_views(old(library)@)) ==> distinct_ids(entry_views(final(library)@)),
{
    let ghost before = entry_views(library@);
    let wanted: String = id.to_string();
    proof {
        lemma_position_of(before, id@);
        if distinct_ids(before) {
            lemma_launch_keeps_distinct(before, id@, stamp@);
        }
    }
    match find_entry(library, &wanted) {
        Some(i) => {
            library[i].state = EntryState::Running;
            library[i].last_launched = Some(stamp);
            let copy = library[i].clone();
            assert(entry_views(library@) =~= before.update(
                i as int,
                launched(before[i as int], stamp@),
            ));
            Some(copy)
        },
        None => None,
    }
}

/// Removes an id: the entries that carry it leave the library. Tells whether
/// any did; an id that the library lacks is no error.
pub fn remove_entry(library: &mut Vec<LibraryApp>, id: &str) -> (removed: bool)
    ensures
        entry_views(final(library)@) == after_remove(entry_views(old(library)@), id@),
        removed == holds(entry_views(old(library)@), id@),
        !removed ==> final(library)@ == old(library)@,
        distinct_ids(entry_views(old(library)@)) ==> {
            &&& distinct_ids(entry_views(final(library)@))
            &&& removed ==> final(library)@.len() == old(library)@.len() - 1
        },
{
    let ghost before = entry_views(library@);
    let ghost keep = |entry: LibraryAppView| entry.id != id@;
    let wanted: String = id.to_string();
    proof {
        lemma_position_of(before, id@);
        if distinct_ids(before) {
            lemma_remove_keeps_distinct(before, id@);
            if holds(before, id@) {
                lemma_remove_present(before, id@);
            }
        }
    }
    if find_entry(library, &wanted).is_none() {
        proof {
            lemma_remove_absent(before, id@);
        }
        return false;
    }
    let mut all: Vec<LibraryApp> = Vec::new();
    std::mem::swap(library, &mut all);
    assert(before.take(0).filter(keep) =~= Seq::<LibraryAppView>::empty()) by {
        reveal(Seq::filter);
    }
    for entry in it: all
        invariant
            entry_views(it.seq()) == before,
            keep == (|entry: LibraryAppView| entry.id != id@),
            wanted@ == id@,
            entry_views(library@) == before.take(it.index()).filter(keep),
    {
        proof {
            assert(before.take(it.index() + 1) =~= before.take(it.index()).push(entry@));
            before.take(it.index()).lemma_filter_push(entry@, keep);
        }
        if entry.id != wanted {
            let ghost kept = library@;
            library.push(entry);
            assert(entry_views(library@) =~= entry_views(kept).push(entry@));
        }
    }
    assert(before.take(before.len() as int) =~= before);
    true
}

/// The entries of the library, in the order they were saved.
pub fn library_list_apps(library: &Vec<LibraryApp>) -> (listed: Vec<LibraryApp>)
    ensures
        entry_views(listed@) == entry_views(library@),
{
    let mut listed: Vec<LibraryApp> = Vec::new();
    let mut i: usize = 0;
    while i < library.len()
        invariant
            i <= library.len(),
            entry_views(listed@) == entry_views(library@.take(i as int)),
        decreases library.len() - i,
    {
        let ghost before = listed@;
        listed.push(library[i].clone());
        assert(entry_views(listed@) =~= entry_views(before).push(library[i as int]@));
        assert(entry_views(library@.take(i + 1)) =~= entry_views(library@.take(i as int)).push(
            library[i as int]@,
        ));
        i += 1;
    }
    assert(library@.take(i as int) =~= library@);
    listed
}

/// How many entries of the library run.
pub fn count_running(library: &Vec<LibraryApp>) -> (count: usize)
    ensures
        count == running_count(entry_views(library@)),
{
    let ghost entries = entry_views(library@);
    let ghost runs = |entry: LibraryAppView| entry.state == EntryState::Running;
    let mut count: usize = 0;
    let mut i: usize = 0;
    assert(entries.take(0).filter(runs) =~= Seq::<LibraryAppView>::empty()) by {
        reveal(Seq::filter);
    }
    while i < library.len()
        invariant
            i <= library.len(),
            entries == entry_views(library@),
            runs == (|entry: LibraryAppView| entry.state == EntryState::Running),
            count == entries.take(i as int).filter(runs).len(),
            count <= i,
        decreases library.len() - i,
    {
        proof {
            assert(entries.take(i + 1) =~= entries.take(i as int).push(library[i as int]@));
            entries.take(i as int).lemma_filter_push(library[i as int]@, runs);
        }
        match library[i].state {
            EntryState::Running => {
                count += 1;
            },
            EntryState::Ready => {},
        }
        i += 1;
    }
    assert(entries.take(i as int) =~= entries);
    count
}

/// Saves the catalog item that a lookup found, if it found one. The entry
/// for the item is handed back, the one the library held or the one now
/// created; a notice is due only where one was created. Where the lookup
/// found nothing, nothing is saved and nothing handed back.
pub fn library_save_item(library: &mut Vec<LibraryApp>, found: Option<StoreItem>) -> (reply: (
    Option<LibraryApp>,
    Option<Notice>,
))
    ensures
        match found {
            Some(item) => {
                &&& entry_views(final(library)@) == after_save(entry_views(old(library)@), item@)
                &&& position_of(entry_views(final(library)@), item@.id) matches Some(i)
                    && reply.0 matches Some(entry) && entry@ == entry_views(final(library)@)[i]
                &&& reply.1 == if holds(entry_views(old(library)@), item@.id) {
                    None
                } else {
                    Some(Notice::LibraryUpdated)
                }
                &&& reply.1 is Some ==> (reply.0 matches Some(entry) && entry@ == entry_for(
                    item@,
                ))
                &&& reply.1 is None ==> final(library)@ == old(library)@
            },
            None => reply.0 is None && reply.1 is None && final(library)@ == old(library)@,
        },
        distinct_ids(entry_views(old(library)@)) ==> distinct_ids(entry_views(final(library)@)),
{
    match found {
        Some(item) => {
            let (entry, created) = save_entry(library, &item);
            if created {
                (Some(entry), Some(Notice::LibraryUpdated))
            } else {
                (Some(entry), None)
            }
        },
        None => (None, None),
    }
}

/// Launches the entry with the given id, now: the entry runs and carries the
/// clock's reading as its last launch. The entry is handed back and a notice
/// is due. Where the library has no such entry, nothing changes, nothing is
/// handed back and no notice is due.
pub fn library_launch_item(library: &mut Vec<LibraryApp>, item: &str) -> (reply: (
    Option<LibraryApp>,
    Option<Notice>,
))
    ensures
        exists|secs: u64|
            {
                let stamp = #[trigger] decimal_digits(secs as nat);
                &&& entry_views(final(library)@) == after_launch(
                    entry_views(old(library)@),
                    item@,
                    stamp,
                )
                &&& match position_of(entry_views(old(library)@), item@) {
                    Some(i) => reply.0 matches Some(entry) && entry@ == launched(
                        entry_views(old(library)@)[i],
                        stamp,
                    ) && reply.1 == Some(Notice::LibraryUpdated),
                    None => reply.0 is None && reply.1 is None && final(library)@ == old(
                        library,
                    )@,
                }
            },
        distinct_ids(entry_views(old(library)@)) ==> distinct_ids(entry_views(final(library)@)),
{
    let stamp = now_stamp();
    match launch_entry(library, item, stamp) {
        Some(entry) => (Some(entry), Some(Notice::LibraryUpdated)),
        None => (None, None),
    }
}

/// Removes the entry with the given id. Tells whether an entry left; a
/// notice is due only where one did.
pub fn library_remove_item(library: &mut Vec<LibraryApp>, item: &str) -> (reply: (
    bool,
    Option<Notice>,
))
    ensures
        entry_views(final(library)@) == after_remove(entry_views(old(library)@), item@),
        reply.0 == holds(entry_views(old(library)@), item@),
        reply.1 == if reply.0 {
            Some(Notice::LibraryUpdated)
        } else {
            None
        },
        !reply.0 ==> final(library)@ == old(library)@,
        distinct_ids(entry_views(old(library)@)) ==> {
            &&& distinct_ids(entry_views(final(library)@))
            &&& reply.0 ==> final(library)@.len() == old(library)@.len() - 1
        },
{
    if remove_entry(library, item) {
        (true, Some(Notice::LibraryUpdated))
    } else {
        (false, None)
    }
}

/// Removing an id that the library lacks changes nothing.
pub proof fn lemma_remove_absent(library: Seq<LibraryAppView>, id: Seq<char>)
    requires
        !holds(library, id),
    ensures
        after_remove(library, id) == library,
    decreases library.len(),
{
    reveal(Seq::filter);
    if library.len() > 0 {
        let earlier = library.drop_last();
        assert(!holds(earlier, id)) by {
            if holds(earlier, id) {
                let j = choose|j: int| 0 <= j < earlier.len() && (#[trigger] earlier[j]).id == id;
                assert(library[j].id == id);
            }
        }
        lemma_remove_absent(earlier, id);
        assert(library[library.len() - 1].id != id);
        assert(earlier.push(library.last()) =~= library);
    }
}

/// After a removal no entry carries the removed id, and the others stay.
pub proof fn lemma_remove_holds(library: Seq<LibraryAppView>, id: Seq<char>, other: Seq<char>)
    ensures
        holds(after_remove(library, id), other) == (other != id && holds(library, other)),
    decreases library.len(),
{
    reveal(Seq::filter);
    let keep = |entry: LibraryAppView| entry.id != id;
    if library.len() > 0 {
        let earlier = library.drop_last();
        let last = library.last();
        lemma_remove_holds(earlier, id, other);
        let kept = earlier.filter(keep);
        assert(holds(library, other) == (holds(earlier, other) || last.id == other)) by {
            if holds(earlier, other) {
                let j = choose|j: int|
                    0 <= j < earlier.len() && (#[trigger] earlier[j]).id == other;
                assert(library[j].id == other);
            }
            if last.id == other {
                assert(library[library.len() - 1].id == other);
            }
            if holds(library, other) {
                let j = choose|j: int|
                    0 <= j < library.len() && (#[trigger] library[j]).id == other;
                if j < earlier.len() {
                    assert(earlier[j].id == other);
                }
            }
        }
        if keep(last) {
            let pushed = kept.push(last);
            assert(holds(pushed, other) == (holds(kept, other) || last.id == other)) by {
                if holds(kept, other) {
                    let j = choose|j: int| 0 <= j < kept.len() && (#[trigger] kept[j]).id == other;
                    assert(pushed[j].id == other);
                }
                if last.id == other {
                    assert(pushed[kept.len() as int].id == other);
                }
                if holds(pushed, other) {
                    let j = choose|j: int|
                        0 <= j < pushed.len() && (#[trigger] pushed[j]).id == other;
                    if j < kept.len() {
                        assert(kept[j].id == other);
                    }
                }
            }
        }
    }
}

/// Saving the same item again changes nothing: the library after the second
/// save is the library after the first, and it holds the item's id.
pub proof fn lemma_save_idempotent(library: Seq<LibraryAppView>, item: StoreItemView)
    ensures
        holds(after_save(library, item), item.id),
        after_save(after_save(library, item), item) == after_save(library, item),
        after_save(library, item).len() == if holds(library, item.id) {
            library.len()
        } else {
            library.len() + 1
        },
{
    let once = after_save(library, item);
    if !holds(library, item.id) {
        assert(once[library.len() as int].id == item.id);
    }
}

/// Saving keeps the library's invariant.
pub proof fn lemma_save_keeps_distinct(library: Seq<LibraryAppView>, item: StoreItemView)
    requires
        distinct_ids(library),
    ensures
        distinct_ids(after_save(library, item)),
{
}

/// A launch changes the launched entry's state and stamp and nothing else;
/// launching an id that the library lacks changes nothing.
pub proof fn lemma_launch(library: Seq<LibraryAppView>, id: Seq<char>, stamp: Seq<char>)
    ensures
        after_launch(library, id, stamp).len() == library.len(),
        !holds(library, id) ==> after_launch(library, id, stamp) == library,
        forall|i: int|
            0 <= i < library.len() ==> (#[trigger] after_launch(library, id, stamp)[i]).id
                == library[i].id,
        forall|i: int|
            is_first_with(library, id, i) ==> {
                &&& (#[trigger] after_launch(library, id, stamp)[i]).state == EntryState::Running
                &&& after_launch(library, id, stamp)[i].last_launched == Some(stamp)
            },
        forall|i: int|
            0 <= i < library.len() && !is_first_with(library, id, i) ==> #[trigger] after_launch(
                library,
                id,
                stamp,
            )[i] == library[i],
{
    lemma_position_of(library, id);
}

/// Launching keeps the library's invariant.
pub proof fn lemma_launch_keeps_distinct(
    library: Seq<LibraryAppView>,
    id: Seq<char>,
    stamp: Seq<char>,
)
    requires
        distinct_ids(library),
    ensures
        distinct_ids(after_launch(library, id, stamp)),
{
    lemma_launch(library, id, stamp);
    let after = after_launch(library, id, stamp);
    assert forall|i: int, j: int| 0 <= i < j < after.len() implies (#[trigger] after[i]).id != (
    #[trigger] after[j]).id by {
        assert(library[i].id != library[j].id);
    }
}

/// In a library that holds no id twice, removing an id that it holds takes
/// exactly one entry away.
pub proof fn lemma_remove_present(library: Seq<LibraryAppView>, id: Seq<char>)
    requires
        distinct_ids(library),
        holds(library, id),
    ensures
        after_remove(library, id).len() == library.len() - 1,
    decreases library.len(),
{
    reveal(Seq::filter);
    let earlier = library.drop_last();
    let last = library.last();
    assert(distinct_ids(earlier)) by {
        assert forall|i: int, j: int| 0 <= i < j < earlier.len() implies (#[trigger] earlier[i]).id
            != (#[trigger] earlier[j]).id by {
            assert(library[i].id != library[j].id);
        }
    }
    if last.id == id {
        assert(!holds(earlier, id)) by {
            if holds(earlier, id) {
                let j = choose|j: int| 0 <= j < earlier.len() && (#[trigger] earlier[j]).id == id;
                assert(library[j].id != library[library.len() - 1].id);
            }
        }
        lemma_remove_absent(earlier, id);
    } else {
        assert(holds(earlier, id)) by {
            let j = choose|j: int| 0 <= j < library.len() && (#[trigger] library[j]).id == id;
            assert(earlier[j].id == id);
        }
        lemma_remove_present(earlier, id);
    }
}

/// Removing keeps the library's invariant.
pub proof fn lemma_remove_keeps_distinct(library: Seq<LibraryAppView>, id: Seq<char>)
    requires
        distinct_ids(library),
    ensures
        distinct_ids(after_remove(library, id)),
    decreases library.len(),
{
    reveal(Seq::filter);
    if library.len() > 0 {
        let earlier = library.drop_last();
        let last = library.last();
        assert(distinct_ids(earlier)) by {
            assert forall|i: int, j: int| 0 <= i < j < earlier.len() implies (
            #[trigger] earlier[i]).id != (#[trigger] earlier[j]).id by {
                assert(library[i].id != library[j].id);
            }
        }
        lemma_remove_keeps_distinct(earlier, id);
        if last.id != id {
            lemma_remove_holds(earlier, id, last.id);
            assert(!holds(earlier, last.id)) by {
                if holds(earlier, last.id) {
                    let j = choose|j: int|
                        0 <= j < earlier.len() && (#[trigger] earlier[j]).id == last.id;
                    assert(library[j].id != library[library.len() - 1].id);
                }
            }
            let kept = after_remove(earlier, id);
            assert forall|i: int, j: int| 0 <= i < j < kept.push(last).len() implies (
            #[trigger] kept.push(last)[i]).id != (#[trigger] kept.push(last)[j]).id by {
                if j == kept.len() {
                    assert(kept[i].id != last.id);
                } else {
                    assert(kept[i].id != kept[j].id);
                }
            }
        }
    }
}

} // verus!
