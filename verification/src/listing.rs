//! From the store's raw listing to the rows of a directory page.
//!
//! The store answers a listing in batches. Each batch echoes the prefix that
//! was asked for, names the sub-folders below it as common prefixes, and the
//! objects directly under it as contents. A row shows a name relative to the
//! echoed prefix; a key that does not start with the prefix gives no row.

use vstd::prelude::*;
use vstd::string::*;
use crate::sizes::{bytes_to_human, human_size_text};

verus! {

/// One object as the store lists it.
#[derive(Clone, Debug, PartialEq, Eq)]
pub struct StoredObject {
    pub key: String,
    pub size: u64,
    pub last_modified: String,
}

/// One batch of a listing.
#[derive(Clone, Debug, PartialEq, Eq)]
pub struct ListBatch {
    /// The prefix that the batch says it lists, if it says so.
    pub echoed_prefix: Option<String>,
    /// The sub-folders, each a full key prefix that ends in the delimiter;
    /// a batch without sub-folders may leave them out altogether.
    pub common_prefixes: Option<Vec<String>>,
    /// The objects directly under the prefix.
    pub contents: Vec<StoredObject>,
}

/// One row of a directory page.
#[derive(Clone, Debug, PartialEq, Eq)]
pub struct ListEntry {
    /// The path segment below the listed prefix; a folder keeps its trailing
    /// slash.
    pub name: String,
    pub is_directory: bool,
    /// Zero for a folder.
    pub size_bytes: u64,
    /// The size for a reader, or `[DIR]` for a folder.
    pub size_human: String,
    /// The store's time stamp; empty for a folder.
    pub last_modified: String,
}

/// A stored object as contracts speak of it: its strings as sequences of
/// characters.
pub struct StoredObjectView {
    pub key: Seq<char>,
    pub size: u64,
    pub last_modified: Seq<char>,
}

/// A batch as contracts speak of it.
pub struct ListBatchView {
    pub echoed_prefix: Option<Seq<char>>,
    pub common_prefixes: Option<Seq<Seq<char>>>,
    pub contents: Seq<StoredObjectView>,
}

/// A row as contracts speak of it.
pub struct ListEntryView {
    pub name: Seq<char>,
    pub is_directory: bool,
    pub size_bytes: u64,
    pub size_human: Seq<char>,
    pub last_modified: Seq<char>,
}

impl View for StoredObject {
    type V = StoredObjectView;

    open spec fn view(&self) -> StoredObjectView {
        StoredObjectView { key: self.key@, size: self.size, last_modified: self.last_modified@ }
    }
}

impl DeepView for StoredObject {
    type V = StoredObjectView;

    open spec fn deep_view(&self) -> StoredObjectView {
        self@
    }
}

impl View for ListBatch {
    type V = ListBatchView;

    open spec fn view(&self) -> ListBatchView {
        ListBatchView {
            echoed_prefix: self.echoed_prefix.deep_view(),
            common_prefixes: self.common_prefixes.deep_view(),
            contents: self.contents.deep_view(),
        }
    }
}

impl DeepView for ListBatch {
    type V = ListBatchView;

    open spec fn deep_view(&self) -> ListBatchView {
        self@
    }
}

impl View for ListEntry {
    type V = ListEntryView;

    open spec fn view(&self) -> ListEntryView {
        ListEntryView {
            name: self.name@,
            is_directory: self.is_directory,
            size_bytes: self.size_bytes,
            size_human: self.size_human@,
            last_modified: self.last_modified@,
        }
    }
}

impl DeepView for ListEntry {
    type V = ListEntryView;

    open spec fn deep_view(&self) -> ListEntryView {
        self@
    }
}

impl ListEntryView {
    /// What holds of every row that the store's listing gives: a folder has
    /// no size and no time stamp and shows the folder marker; a file shows
    /// its own size for a reader.
    pub open spec fn well_formed(self) -> bool {
        if self.is_directory {
            self.size_bytes == 0 && self.size_human == folder_marker() && self.last_modified.len()
                == 0
        } else {
            self.size_human == human_size_text(self.size_bytes as nat)
        }
    }
}

impl ListBatchView {
    /// The prefix to strip from the keys of this batch: the echoed one, or
    /// the empty prefix where the batch echoes none.
    pub open spec fn prefix(self) -> Seq<char> {
        match self.echoed_prefix {
            Some(prefix) => prefix,
            None => Seq::empty(),
        }
    }

    /// The sub-folders that this batch names: none where it leaves them out.
    pub open spec fn folders(self) -> Seq<Seq<char>> {
        match self.common_prefixes {
            Some(folders) => folders,
            None => Seq::empty(),
        }
    }
}

/// What a folder shows in place of a size.
pub open spec fn folder_marker() -> Seq<char> {
    seq!['[', 'D', 'I', 'R', ']']
}

/// `text` without `prefix` at its start, or nothing where `text` does not
/// start with it.
pub open spec fn stripped(text: Seq<char>, prefix: Seq<char>) -> Option<Seq<char>> {
    if prefix.is_prefix_of(text) {
        Some(text.skip(prefix.len() as int))
    } else {
        None
    }
}

/// The row of a sub-folder, if its key lies under the prefix.
pub open spec fn folder_entry(prefix: Seq<char>, common_prefix: Seq<char>) -> Option<
    ListEntryView,
> {
    match stripped(common_prefix, prefix) {
        Some(name) => Some(
            ListEntryView {
                name,
                is_directory: true,
                size_bytes: 0,
                size_human: folder_marker(),
                last_modified: Seq::empty(),
            },
        ),
        None => None,
    }
}

/// The row of an object, if its key lies under the prefix.
pub open spec fn file_entry(prefix: Seq<char>, object: StoredObjectView) -> Option<ListEntryView> {
    match stripped(object.key, prefix) {
        Some(name) => Some(
            ListEntryView {
                name,
                is_directory: false,
                size_bytes: object.size,
                size_human: human_size_text(object.size as nat),
                last_modified: object.last_modified,
            },
        ),
        None => None,
    }
}

/// The rows of one batch: its sub-folders in the store's order, then its
/// objects in the store's order.
pub open spec fn batch_entries(batch: ListBatchView) -> Seq<ListEntryView> {
    batch.folders().filter_map(|key: Seq<char>| folder_entry(batch.prefix(), key))
        + batch.contents.filter_map(|object: StoredObjectView| file_entry(batch.prefix(), object))
}

/// The rows of a whole listing: those of its batches, one batch after the
/// other.
pub open spec fn listing_entries(batches: Seq<ListBatchView>) -> Seq<ListEntryView> {
    batches.flat_map(|batch: ListBatchView| batch_entries(batch))
}

/// Whether a batch names `key`, as a sub-folder or as an object.
pub open spec fn batch_lists_key(batch: ListBatchView, key: Seq<char>) -> bool {
    batch.folders().contains(key) || exists|j: int|
        0 <= j < batch.contents.len() && (#[trigger] batch.contents[j]).key == key
}

/// Whether a listing names `key` in one of its batches.
pub open spec fn lists_key(batches: Seq<ListBatchView>, key: Seq<char>) -> bool {
    exists|b: int| 0 <= b < batches.len() && batch_lists_key(#[trigger] batches[b], key)
}

/// Every row of a listing comes from one of its batches.
proof fn lemma_entry_has_batch(batches: Seq<ListBatchView>, i: int)
    requires
        0 <= i < listing_entries(batches).len(),
    ensures
        exists|b: int|
            0 <= b < batches.len() && batch_entries(#[trigger] batches[b]).contains(
                listing_entries(batches)[i],
            ),
    decreases batches.len(),
{
    let rows = |batch: ListBatchView| batch_entries(batch);
    if batches.len() > 0 {
        let front = batches.drop_last();
        let last = batches.last();
        front.lemma_flat_map_push(rows, last);
        assert(front.push(last) =~= batches);
        if i < listing_entries(front).len() {
            lemma_entry_has_batch(front, i);
            let b = choose|b: int|
                0 <= b < front.len() && batch_entries(#[trigger] front[b]).contains(
                    listing_entries(front)[i],
                );
            assert(batches[b] == front[b]);
        } else {
            let at = i - listing_entries(front).len();
            assert(batch_entries(last)[at] == listing_entries(batches)[i]);
            assert(batches[batches.len() - 1] == last);
        }
    }
}

/// A row of a batch is well formed, and named by what is left of one of the
/// batch's keys after the batch's prefix.
proof fn lemma_batch_entry_has_source(batch: ListBatchView, entry: ListEntryView)
    requires
        batch_entries(batch).contains(entry),
    ensures
        batch_lists_key(batch, batch.prefix() + entry.name),
        entry.well_formed(),
{
    let prefix = batch.prefix();
    let folders = |key: Seq<char>| folder_entry(prefix, key);
    let files = |object: StoredObjectView| file_entry(prefix, object);
    let folder_rows = batch.folders().filter_map(folders);
    let file_rows = batch.contents.filter_map(files);
    let at = choose|at: int| 0 <= at < batch_entries(batch).len() && batch_entries(batch)[at] == entry;
    if at < folder_rows.len() {
        assert(folder_rows[at] == entry);
        batch.folders().lemma_filter_map_contains(folders, entry);
        let key = choose|key: Seq<char>| #[trigger]
            batch.folders().contains(key) && folders(key) == Some(entry);
        assert(key =~= prefix + entry.name);
    } else {
        assert(file_rows[at - folder_rows.len()] == entry);
        batch.contents.lemma_filter_map_contains(files, entry);
        let object = choose|object: StoredObjectView| #[trigger]
            batch.contents.contains(object) && files(object) == Some(entry);
        assert(object.key =~= prefix + entry.name);
        let j = choose|j: int| 0 <= j < batch.contents.len() && batch.contents[j] == object;
        assert(batch.contents[j].key == prefix + entry.name);
    }
}

/// Every row of a listing is well formed.
pub proof fn lemma_entries_are_well_formed(batches: Seq<ListBatchView>)
    ensures
        forall|i: int|
            0 <= i < listing_entries(batches).len() ==> (#[trigger] listing_entries(
                batches,
            )[i]).well_formed(),
{
    assert forall|i: int| 0 <= i < listing_entries(batches).len() implies (#[trigger] listing_entries(
        batches,
    )[i]).well_formed() by {
        let entry = listing_entries(batches)[i];
        lemma_entry_has_batch(batches, i);
        let b = choose|b: int|
            0 <= b < batches.len() && batch_entries(#[trigger] batches[b]).contains(entry);
        lemma_batch_entry_has_source(batches[b], entry);
    }
}

/// Within one batch no file comes before a folder.
pub proof fn lemma_batch_lists_folders_first(batch: ListBatchView, i: int, j: int)
    requires
        0 <= i <= j < batch_entries(batch).len(),
        batch_entries(batch)[j].is_directory,
    ensures
        batch_entries(batch)[i].is_directory,
{
    let prefix = batch.prefix();
    let folders = |key: Seq<char>| folder_entry(prefix, key);
    let files = |object: StoredObjectView| file_entry(prefix, object);
    let folder_rows = batch.folders().filter_map(folders);
    let file_rows = batch.contents.filter_map(files);
    if j >= folder_rows.len() {
        let row = file_rows[j - folder_rows.len()];
        assert(file_rows.contains(row));
        batch.contents.lemma_filter_map_contains(files, row);
    } else {
        let row = folder_rows[i];
        assert(folder_rows.contains(row));
        batch.folders().lemma_filter_map_contains(folders, row);
    }
}

/// Where every batch of a listing strips the same prefix, each row's name is
/// exactly what follows that prefix in one of the listed keys: the prefix and
/// the name together are that key.
pub proof fn lemma_names_are_stripped_keys(batches: Seq<ListBatchView>, prefix: Seq<char>)
    requires
        forall|b: int| 0 <= b < batches.len() ==> (#[trigger] batches[b]).prefix() == prefix,
    ensures
        forall|i: int|
            0 <= i < listing_entries(batches).len() ==> lists_key(
                batches,
                prefix + (#[trigger] listing_entries(batches)[i]).name,
            ),
{
    assert forall|i: int| 0 <= i < listing_entries(batches).len() implies lists_key(
        batches,
        prefix + (#[trigger] listing_entries(batches)[i]).name,
    ) by {
        let entry = listing_entries(batches)[i];
        lemma_entry_has_batch(batches, i);
        let b = choose|b: int|
            0 <= b < batches.len() && batch_entries(#[trigger] batches[b]).contains(entry);
        lemma_batch_entry_has_source(batches[b], entry);
    }
}

/// Where every batch of a listing strips the same prefix, and no listed key
/// starts with that prefix twice over, no row's name starts with the prefix.
pub proof fn lemma_names_do_not_start_with_prefix(batches: Seq<ListBatchView>, prefix: Seq<char>)
    requires
        forall|b: int| 0 <= b < batches.len() ==> (#[trigger] batches[b]).prefix() == prefix,
        forall|key: Seq<char>| #[trigger]
            lists_key(batches, key) ==> !(prefix + prefix).is_prefix_of(key),
    ensures
        forall|i: int|
            0 <= i < listing_entries(batches).len() ==> !prefix.is_prefix_of(
                (#[trigger] listing_entries(batches)[i]).name,
            ),
{
    lemma_names_are_stripped_keys(batches, prefix);
    assert forall|i: int| 0 <= i < listing_entries(batches).len() implies !prefix.is_prefix_of(
        (#[trigger] listing_entries(batches)[i]).name,
    ) by {
        let name = listing_entries(batches)[i].name;
        let key = prefix + name;
        assert(lists_key(batches, key));
        if prefix.is_prefix_of(name) {
            assert((prefix + prefix) =~= key.subrange(0, (prefix + prefix).len() as int));
        }
    }
}

/// Removes `prefix` from the start of `text`.
pub fn strip_prefix(text: &str, prefix: &str) -> (rest: Option<String>)
    ensures
        rest.deep_view() == stripped(text@, prefix@),
{
    let text_len: usize = text.unicode_len();
    let prefix_len: usize = prefix.unicode_len();
    if prefix_len > text_len {
        return None;
    }
    let head = String::from_str(text.substring_char(0, prefix_len));
    let wanted = String::from_str(prefix);
    if head == wanted {
        let rest = String::from_str(text.substring_char(prefix_len, text_len));
        Some(rest)
    } else {
        None
    }
}

/// Builds the row of a sub-folder from its common prefix.
pub fn folder_row(prefix: &str, common_prefix: &str) -> (row: Option<ListEntry>)
    ensures
        row.deep_view() == folder_entry(prefix@, common_prefix@),
        row matches Some(entry) ==> entry@.well_formed(),
{
    proof {
        reveal_strlit("[DIR]");
    }
    match strip_prefix(common_prefix, prefix) {
        Some(name) => {
            let size_human = String::from_str("[DIR]");
            assert(size_human@ =~= folder_marker());
            Some(
                ListEntry {
                    name,
                    is_directory: true,
                    size_bytes: 0,
                    size_human,
                    last_modified: String::new(),
                },
            )
        },
        None => None,
    }
}

/// Builds the row of an object from its listed key, size and time stamp.
pub fn file_row(prefix: &str, object: &StoredObject) -> (row: Option<ListEntry>)
    ensures
        row.deep_view() == file_entry(prefix@, object@),
        row matches Some(entry) ==> entry@.well_formed(),
{
    match strip_prefix(object.key.as_str(), prefix) {
        Some(name) => Some(
            ListEntry {
                name,
                is_directory: false,
                size_bytes: object.size,
                size_human: bytes_to_human(object.size),
                last_modified: object.last_modified.clone(),
            },
        ),
        None => None,
    }
}

/// Appends the rows of one batch: sub-folders first, then objects, each kind
/// in the store's order.
pub fn append_batch(entries: &mut Vec<ListEntry>, batch: &ListBatch)
    ensures
        final(entries).deep_view() == old(entries).deep_view() + batch_entries(batch@),
{
    proof {
        reveal_strlit("");
    }
    let prefix: &str = match &batch.echoed_prefix {
        Some(echoed) => echoed.as_str(),
        None => "",
    };
    assert(prefix@ =~= batch@.prefix());
    let ghost before = entries.deep_view();
    let ghost folders = |key: Seq<char>| folder_entry(batch@.prefix(), key);
    let ghost files = |object: StoredObjectView| file_entry(batch@.prefix(), object);
    let ghost keys = batch@.folders();
    let ghost objects = batch.contents.deep_view();

    assert(keys.take(0).filter_map(folders) =~= Seq::empty());
    match &batch.common_prefixes {
        Some(common_prefixes) => {
            let mut i: usize = 0;
            while i < common_prefixes.len()
                invariant
                    i <= common_prefixes.len(),
                    prefix@ == batch@.prefix(),
                    keys == common_prefixes.deep_view(),
                    folders == |key: Seq<char>| folder_entry(batch@.prefix(), key),
                    entries.deep_view() == before + keys.take(i as int).filter_map(folders),
                decreases common_prefixes.len() - i,
            {
                let ghost so_far = entries.deep_view();
                let row = folder_row(prefix, common_prefixes[i].as_str());
                proof {
                    keys.lemma_filter_map_take_succ(folders, i as int);
                    assert(keys[i as int] == common_prefixes[i as int]@);
                }
                match row {
                    Some(entry) => {
                        entries.push(entry);
                        assert(entries.deep_view() =~= so_far + seq![entry.deep_view()]);
                    },
                    None => {},
                }
                i += 1;
            }
            assert(keys.take(i as int) =~= keys);
        },
        None => {
            assert(keys.take(0) =~= keys);
        },
    }

    let ghost middle = entries.deep_view();
    let mut j: usize = 0;
    assert(objects.take(0).filter_map(files) =~= Seq::empty());
    while j < batch.contents.len()
        invariant
            j <= batch.contents.len(),
            prefix@ == batch@.prefix(),
            objects == batch.contents.deep_view(),
            files == |object: StoredObjectView| file_entry(batch@.prefix(), object),
            entries.deep_view() == middle + objects.take(j as int).filter_map(files),
        decreases batch.contents.len() - j,
    {
        let ghost so_far = entries.deep_view();
        let row = file_row(prefix, &batch.contents[j]);
        proof {
            objects.lemma_filter_map_take_succ(files, j as int);
            assert(objects[j as int] == batch.contents[j as int]@);
        }
        match row {
            Some(entry) => {
                entries.push(entry);
                assert(entries.deep_view() =~= so_far + seq![entry.deep_view()]);
            },
            None => {},
        }
        j += 1;
    }
    assert(objects.take(j as int) =~= objects);
    assert(entries.deep_view() =~= before + batch_entries(batch@));
}

/// Turns the batches of a listing into the rows of a directory page.
///
/// Each key is shown relative to the prefix that its own batch echoes; a key
/// outside that prefix is left out. Within a batch the sub-folders come
/// first; otherwise the store's order is kept.
pub fn normalize(batches: &Vec<ListBatch>) -> (entries: Vec<ListEntry>)
    ensures
        entries.deep_view() == listing_entries(batches.deep_view()),
        forall|i: int| 0 <= i < entries.len() ==> (#[trigger] entries[i])@.well_formed(),
{
    let ghost rows = |batch: ListBatchView| batch_entries(batch);
    let ghost all = batches.deep_view();
    let mut entries: Vec<ListEntry> = Vec::new();
    let mut i: usize = 0;
    assert(entries.deep_view() =~= all.take(0).flat_map(rows));
    while i < batches.len()
        invariant
            i <= batches.len(),
            all == batches.deep_view(),
            rows == |batch: ListBatchView| batch_entries(batch),
            entries.deep_view() == all.take(i as int).flat_map(rows),
        decreases batches.len() - i,
    {
        append_batch(&mut entries, &batches[i]);
        proof {
            all.take(i as int).lemma_flat_map_push(rows, all[i as int]);
            assert(all.take(i as int).push(all[i as int]) =~= all.take(i as int + 1));
            assert(all[i as int] == batches[i as int]@);
        }
        i += 1;
    }
    assert(all.take(i as int) =~= all);
    proof {
        lemma_entries_are_well_formed(all);
        assert(entries.deep_view() == listing_entries(all));
        assert forall|i: int| 0 <= i < entries.len() implies (#[trigger] entries[i])@.well_formed() by {
            assert(listing_entries(all)[i] == entries[i]@);
        }
    }
    entries
}

} // verus!
