//! The registry of named server endpoints.
//!
//! Each server is one regular file in the servers directory: the file's name
//! is the server's name, and its whole content is the server's base URL. The
//! caller enumerates the directory and hands the entries over in enumeration
//! order, which is the order the registry keeps.

use vstd::prelude::*;
use crate::error::ClientError;
use crate::index::{index_value, is_index_text, parse_index};

verus! {

/// One entry of the servers directory, as the caller found it.
#[derive(Debug, Clone, PartialEq, Eq)]
pub enum DirEntry {
    /// A regular file and its whole content.
    File { name: String, content: String },
    /// A regular file whose name or content could not be read.
    Unreadable,
    /// Anything that is not a regular file, such as a subdirectory.
    Other,
}

/// A named server endpoint.
#[derive(Debug, Clone, PartialEq, Eq)]
pub struct ServerRecord {
    /// The display name: the file's name in the servers directory.
    pub name: String,
    /// The base URL: the file's whole content, taken as it is.
    pub url: String,
}

/// What a server record holds, as plain text.
pub ghost struct RecordView {
    pub name: Seq<char>,
    pub url: Seq<char>,
}

impl View for ServerRecord {
    type V = RecordView;

    open spec fn view(&self) -> RecordView {
        RecordView { name: self.name@, url: self.url@ }
    }
}

/// The record that a directory entry stands for: one for a regular file,
/// none for anything else.
pub open spec fn record_of(entry: DirEntry) -> Option<RecordView> {
    match entry {
        DirEntry::File { name, content } => Some(RecordView { name: name@, url: content@ }),
        _ => None,
    }
}

/// The records of a directory: one per regular file, in the order of the
/// entries.
pub open spec fn records_of(entries: Seq<DirEntry>) -> Seq<RecordView> {
    entries.filter_map(|entry: DirEntry| record_of(entry))
}

/// Whether every regular file among the entries could be read.
pub open spec fn all_readable(entries: Seq<DirEntry>) -> bool {
    forall|i: int| 0 <= i < entries.len() ==> !(#[trigger] entries[i] is Unreadable)
}

/// The number of regular files among the entries.
pub open spec fn file_count(entries: Seq<DirEntry>) -> nat {
    entries.filter(|entry: DirEntry| entry is File).len()
}

/// Whether no two records carry the same name.
pub open spec fn names_unique(records: Seq<RecordView>) -> bool {
    forall|i: int, j: int|
        0 <= i < j < records.len() ==> (#[trigger] records[i]).name != (#[trigger] records[j]).name
}

/// Whether no two regular files among the entries carry the same name, as a
/// file system guarantees of one directory.
pub open spec fn file_names_unique(entries: Seq<DirEntry>) -> bool {
    forall|i: int, j: int|
        0 <= i < j < entries.len() && (#[trigger] entries[i]) is File
            && (#[trigger] entries[j]) is File ==> entries[i]->name@ != entries[j]->name@
}

/// The servers known to the client, in directory order.
#[derive(Debug, Clone, PartialEq, Eq)]
pub struct Registry {
    records: Vec<ServerRecord>,
}

impl View for Registry {
    type V = Seq<RecordView>;

    closed spec fn view(&self) -> Seq<RecordView> {
        self.records@.map_values(|record: ServerRecord| record@)
    }
}

/// Builds the registry from what the servers directory holds. `listing` is
/// `None` where the directory could not be created or enumerated.
///
/// Entries that are not regular files are skipped. An empty directory gives
/// an empty registry, which is no failure.
pub fn list_servers(listing: Option<Vec<DirEntry>>) -> (r: Result<Registry, ClientError>)
    ensures
        match listing {
            Some(entries) if all_readable(entries@) => (r matches Ok(registry)
                && registry@ == records_of(entries@)),
            _ => r == Err::<Registry, ClientError>(ClientError::RegistryIo),
        },
        r matches Ok(registry) ==> {
            &&& listing matches Some(entries)
            &&& registry@.len() == file_count(entries@)
            &&& file_names_unique(entries@) ==> names_unique(registry@)
        },
{
    let entries = match listing {
        Some(entries) => entries,
        None => {
            return Err(ClientError::RegistryIo);
        },
    };
    let mut records: Vec<ServerRecord> = Vec::new();
    let mut i: usize = 0;
    while i < entries.len()
        invariant
            listing == Some(entries),
            i <= entries.len(),
            forall|k: int| 0 <= k < i ==> !(#[trigger] entries@[k] is Unreadable),
            records@.map_values(|record: ServerRecord| record@) == records_of(
                entries@.take(i as int),
            ),
        decreases entries.len() - i,
    {
        proof {
            entries@.lemma_filter_map_take_succ(|entry: DirEntry| record_of(entry), i as int);
        }
        let ghost before = records@;
        match &entries[i] {
            DirEntry::File { name, content } => {
                records.push(ServerRecord { name: name.clone(), url: content.clone() });
                assert(records@.map_values(|record: ServerRecord| record@) =~= before.map_values(
                    |record: ServerRecord| record@,
                ).push(record_of(entries@[i as int])->0));
            },
            DirEntry::Unreadable => {
                return Err(ClientError::RegistryIo);
            },
            DirEntry::Other => {},
        }
        i = i + 1;
    }
    proof {
        assert(entries@.take(i as int) =~= entries@);
        lemma_one_record_per_file(entries@);
        if file_names_unique(entries@) {
            lemma_names_stay_unique(entries@);
        }
    }
    Ok(Registry { records })
}

impl Registry {
    /// The number of servers.
    pub fn len(&self) -> (n: usize)
        ensures
            n == self@.len(),
    {
        self.records.len()
    }

    /// The records, in registry order.
    pub fn records(&self) -> (records: &Vec<ServerRecord>)
        ensures
            records@.len() == self@.len(),
            forall|i: int| 0 <= i < records@.len() ==> (#[trigger] records@[i])@ == self@[i],
    {
        &self.records
    }

    /// The server at `index`. An index at or past the number of servers is
    /// refused, and the failure carries that number; with no servers every
    /// index is refused.
    pub fn resolve(&self, index: usize) -> (r: Result<&ServerRecord, ClientError>)
        ensures
            index < self@.len() ==> (r matches Ok(record) && record@ == self@[index as int]),
            index >= self@.len() ==> r == Err::<&ServerRecord, ClientError>(
                ClientError::IndexOutOfRange { count: self@.len() as usize },
            ),
    {
        if index < self.records.len() {
            Ok(&self.records[index])
        } else {
            Err(ClientError::IndexOutOfRange { count: self.records.len() })
        }
    }

    /// The server that an index argument names. The argument is read before
    /// the registry is consulted: text that is no index is refused as such,
    /// whatever the registry holds.
    pub fn select(&self, index_text: &str) -> (r: Result<&ServerRecord, ClientError>)
        ensures
            !is_index_text(index_text@) ==> r == Err::<&ServerRecord, ClientError>(
                ClientError::NonNumericIndex,
            ),
            is_index_text(index_text@) && index_value(index_text@) < self@.len() ==> (r matches Ok(
                record,
            ) && record@ == self@[index_value(index_text@) as int]),
            is_index_text(index_text@) && index_value(index_text@) >= self@.len() ==> r == Err::<
                &ServerRecord,
                ClientError,
            >(ClientError::IndexOutOfRange { count: self@.len() as usize }),
    {
        match parse_index(index_text) {
            Ok(index) => self.resolve(index),
            Err(e) => Err(e),
        }
    }
}

/// The records of two runs of entries, one after the other, are the records
/// of the first followed by those of the second.
proof fn lemma_records_of_concat(first: Seq<DirEntry>, second: Seq<DirEntry>)
    ensures
        records_of(first + second) == records_of(first) + records_of(second),
    decreases second.len(),
{
    if second.len() == 0 {
        assert(first + second =~= first);
    } else {
        lemma_records_of_concat(first, second.drop_last());
        assert((first + second).drop_last() =~= first + second.drop_last());
    }
}

/// A directory gives exactly one record per regular file.
pub proof fn lemma_one_record_per_file(entries: Seq<DirEntry>)
    ensures
        records_of(entries).len() == file_count(entries),
    decreases entries.len(),
{
    reveal(Seq::filter);
    if entries.len() > 0 {
        lemma_one_record_per_file(entries.drop_last());
    }
}

/// The record of a regular file stands at the position given by the number
/// of regular files before it, and holds the file's name and content: the
/// records keep the order of the directory.
pub proof fn lemma_record_position(entries: Seq<DirEntry>, i: int)
    requires
        0 <= i < entries.len(),
        entries[i] is File,
    ensures
        file_count(entries.take(i)) < records_of(entries).len(),
        records_of(entries)[file_count(entries.take(i)) as int] == (RecordView {
            name: entries[i]->name@,
            url: entries[i]->content@,
        }),
{
    let before = entries.take(i);
    let rest = entries.skip(i);
    assert(entries =~= before + rest);
    lemma_records_of_concat(before, rest);
    lemma_one_record_per_file(before);
    let tail = rest.skip(1);
    assert(rest =~= seq![entries[i]] + tail);
    lemma_records_of_concat(seq![entries[i]], tail);
    Seq::lemma_filter_map_singleton(entries[i], |entry: DirEntry| record_of(entry));
}

/// A directory of regular files alone gives one record per entry, each at
/// its entry's position.
pub proof fn lemma_files_only(entries: Seq<DirEntry>)
    requires
        forall|i: int| 0 <= i < entries.len() ==> (#[trigger] entries[i]) is File,
    ensures
        records_of(entries).len() == entries.len(),
        forall|i: int|
            0 <= i < entries.len() ==> Some(#[trigger] records_of(entries)[i]) == record_of(
                entries[i],
            ),
    decreases entries.len(),
{
    if entries.len() > 0 {
        lemma_files_only(entries.drop_last());
    }
}

/// Every record of a directory is the record of one of its regular files.
pub proof fn lemma_record_has_file(entries: Seq<DirEntry>, j: int)
    requires
        0 <= j < records_of(entries).len(),
    ensures
        exists|i: int|
            0 <= i < entries.len() && record_of(#[trigger] entries[i]) == Some(
                records_of(entries)[j],
            ),
    decreases entries.len(),
{
    let init = entries.drop_last();
    if j < records_of(init).len() {
        lemma_record_has_file(init, j);
        let i = choose|i: int|
            0 <= i < init.len() && record_of(#[trigger] init[i]) == Some(records_of(init)[j]);
        assert(entries[i] == init[i]);
    } else {
        assert(record_of(entries.last()) == Some(records_of(entries)[j]));
    }
}

/// Where no two files of a directory share a name, no two of its records do.
pub proof fn lemma_names_stay_unique(entries: Seq<DirEntry>)
    requires
        file_names_unique(entries),
    ensures
        names_unique(records_of(entries)),
    decreases entries.len(),
{
    if entries.len() > 0 {
        let init = entries.drop_last();
        assert forall|i: int, j: int|
            0 <= i < j < init.len() && (#[trigger] init[i]) is File
                && (#[trigger] init[j]) is File implies init[i]->name@ != init[j]->name@ by {
            assert(entries[i] == init[i] && entries[j] == init[j]);
        }
        lemma_names_stay_unique(init);
        let records = records_of(entries);
        assert forall|i: int, j: int| 0 <= i < j < records.len() implies
            (#[trigger] records[i]).name != (#[trigger] records[j]).name by {
            if j == records_of(init).len() {
                lemma_record_has_file(init, i);
                let k = choose|k: int|
                    0 <= k < init.len() && record_of(#[trigger] init[k]) == Some(
                        records_of(init)[i],
                    );
                assert(entries[k] == init[k]);
                assert(entries.last() is File);
            } else {
                assert(records[i] == records_of(init)[i]);
                assert(records[j] == records_of(init)[j]);
            }
        }
    }
}

} // verus!
