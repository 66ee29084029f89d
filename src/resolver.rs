//! Resolution of hashes against the entries of the upload directory, and the
//! listing of every well-formed entry. Entries without a delimiter are skipped.
use vstd::prelude::*;

use crate::codec::{decode, decoded, no_delimiter};

verus! {

/// One entry of the upload directory: its file name and size in bytes.
pub struct FileEntry {
    pub name: String,
    pub size: u64,
}

impl View for FileEntry {
    type V = (Seq<char>, u64);

    open spec fn view(&self) -> (Seq<char>, u64) {
        (self.name@, self.size)
    }
}

/// A stored upload: its stored name, its hash, its original name and its
/// size in bytes.
pub struct StoredFile {
    pub stored_name: String,
    pub hash: String,
    pub name: String,
    pub size: u64,
}

impl View for StoredFile {
    type V = (Seq<char>, Seq<char>, Seq<char>, u64);

    open spec fn view(&self) -> (Seq<char>, Seq<char>, Seq<char>, u64) {
        (self.stored_name@, self.hash@, self.name@, self.size)
    }
}

/// The entries of a directory, as plain values.
pub open spec fn entries_view(entries: Seq<FileEntry>) -> Seq<(Seq<char>, u64)> {
    entries.map_values(|e: FileEntry| e@)
}

/// The stored files, as plain values.
pub open spec fn files_view(files: Seq<StoredFile>) -> Seq<(Seq<char>, Seq<char>, Seq<char>, u64)> {
    files.map_values(|f: StoredFile| f@)
}

/// The name of entry `e` holds a delimiter.
pub open spec fn well_formed(e: (Seq<char>, u64)) -> bool {
    !no_delimiter(e.0)
}

/// The stored file that a well-formed entry stands for.
pub open spec fn file_of(e: (Seq<char>, u64)) -> (Seq<char>, Seq<char>, Seq<char>, u64) {
    (e.0, decoded(e.0).unwrap().0, decoded(e.0).unwrap().1, e.1)
}

/// Entry `e` is well formed and its hash is `hash`.
pub open spec fn entry_matches(e: (Seq<char>, u64), hash: Seq<char>) -> bool {
    well_formed(e) && decoded(e.0).unwrap().0 == hash
}

/// The stored files of `entries`, in directory order, malformed ones left out.
pub open spec fn listing(entries: Seq<(Seq<char>, u64)>) -> Seq<
    (Seq<char>, Seq<char>, Seq<char>, u64),
>
    decreases entries.len(),
{
    if entries.len() == 0 {
        seq![]
    } else {
        let rest = listing(entries.drop_last());
        if well_formed(entries.last()) {
            rest.push(file_of(entries.last()))
        } else {
            rest
        }
    }
}

/// The listing holds exactly one file for each well-formed entry, in order,
/// and none for a malformed one.
pub proof fn lemma_listing_is_filter(entries: Seq<(Seq<char>, u64)>)
    ensures
        listing(entries) == entries.filter(|e: (Seq<char>, u64)| well_formed(e)).map_values(
            |e: (Seq<char>, u64)| file_of(e),
        ),
    decreases entries.len(),
{
    reveal(Seq::filter);
    let pred = |e: (Seq<char>, u64)| well_formed(e);
    if entries.len() > 0 {
        lemma_listing_is_filter(entries.drop_last());
        let kept = entries.drop_last().filter(pred);
        if well_formed(entries.last()) {
            assert(kept.push(entries.last()).map_values(|e: (Seq<char>, u64)| file_of(e))
                =~= kept.map_values(|e: (Seq<char>, u64)| file_of(e)).push(
                file_of(entries.last()),
            ));
        }
    } else {
        assert(listing(entries) =~= entries.filter(pred).map_values(
            |e: (Seq<char>, u64)| file_of(e),
        ));
    }
}

/// The stored file of the first entry whose hash is `hash`; `None` where no
/// well-formed entry has that hash.
pub fn resolve(entries: &Vec<FileEntry>, hash: &str) -> (r: Option<StoredFile>)
    ensures
        r is None <==> forall|i: int|
            0 <= i < entries@.len() ==> !entry_matches(#[trigger] entries@[i]@, hash@),
        r matches Some(f) ==> exists|i: int|
            0 <= i < entries@.len() && entry_matches(#[trigger] entries@[i]@, hash@) && (
            forall|j: int| 0 <= j < i ==> !entry_matches(#[trigger] entries@[j]@, hash@))
                && f@ == file_of(entries@[i]@),
{
    let wanted = String::from_str(hash);
    let mut i: usize = 0;
    while i < entries.len()
        invariant
            i <= entries@.len(),
            wanted@ == hash@,
            forall|j: int| 0 <= j < i ==> !entry_matches(#[trigger] entries@[j]@, hash@),
        decreases entries@.len() - i,
    {
        let entry = &entries[i];
        if let Some(parts) = decode(entry.name.as_str()) {
            if parts.0 == wanted {
                proof {
                    assert(entry_matches(entries@[i as int]@, hash@));
                }
                return Some(
                    StoredFile {
                        stored_name: entry.name.clone(),
                        hash: parts.0,
                        name: parts.1,
                        size: entry.size,
                    },
                );
            }
        }
        i = i + 1;
    }
    None
}

/// Every well-formed entry as a stored file, in directory order; entries
/// without a delimiter are skipped.
pub fn list_files(entries: &Vec<FileEntry>) -> (r: Vec<StoredFile>)
    ensures
        files_view(r@) == listing(entries_view(entries@)),
{
    let mut r: Vec<StoredFile> = Vec::new();
    let mut i: usize = 0;
    while i < entries.len()
        invariant
            i <= entries@.len(),
            files_view(r@) == listing(entries_view(entries@.subrange(0, i as int))),
        decreases entries@.len() - i,
    {
        let entry = &entries[i];
        let ghost before = r@;
        proof {
            let es = entries_view(entries@.subrange(0, i + 1));
            assert(es.drop_last() =~= entries_view(entries@.subrange(0, i as int)));
            assert(es.last() == entry@);
        }
        if let Some(parts) = decode(entry.name.as_str()) {
            r.push(
                StoredFile {
                    stored_name: entry.name.clone(),
                    hash: parts.0,
                    name: parts.1,
                    size: entry.size,
                },
            );
            proof {
                assert(files_view(r@) =~= files_view(before).push(file_of(entry@)));
            }
        }
        i = i + 1;
    }
    proof {
        assert(entries@.subrange(0, i as int) =~= entries@);
    }
    r
}

} // verus!
