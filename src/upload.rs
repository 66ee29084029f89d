//! What an upload does with the first field of its form: it picks a hash,
//! names the stored file, and says what the page shows of it.
use vstd::prelude::*;

use crate::codec::{encode, encoded};
use crate::hash::{generate_hash, is_hash};
use crate::size::{humanize_bytes, humanized};

verus! {

/// The length of the hash given to each upload.
pub const HASH_LENGTH: usize = 16;

/// The first field of an upload form: the file name the client declared,
/// if any, and the number of bytes it sent.
pub struct UploadField {
    pub file_name: Option<String>,
    pub size: u64,
}

/// A stored upload as the page shows it.
pub struct Uploaded {
    pub hash: String,
    pub name: String,
    pub stored_name: String,
    pub size: String,
}

/// What to do with an upload request.
pub enum UploadOutcome {
    /// The form held no field: send the client back to the home page.
    NoField,
    /// The field declared no file name: the request is refused.
    MissingName,
    /// The file name holds a path separator: the request is refused.
    InvalidName,
    /// Write the bytes under `stored_name` and show the upload.
    Stored(Uploaded),
}

/// `name` holds a path separator.
pub open spec fn has_separator(name: Seq<char>) -> bool {
    exists|i: int| 0 <= i < name.len() && (name[i] == '/' || name[i] == '\\')
}

/// Whether `name` holds `/` or `\`.
fn contains_separator(name: &str) -> (r: bool)
    ensures
        r == has_separator(name@),
{
    let n = name.unicode_len();
    let mut i: usize = 0;
    while i < n
        invariant
            n == name@.len(),
            i <= n,
            forall|j: int| 0 <= j < i ==> name@[j] != '/' && name@[j] != '\\',
        decreases n - i,
    {
        let c = name.get_char(i);
        if c == '/' || c == '\\' {
            return true;
        }
        i = i + 1;
    }
    false
}

/// The outcome of an upload whose first field is `field`, given the hash
/// that the upload is to be stored under.
pub fn upload_with_hash(field: Option<UploadField>, hash: String) -> (r: UploadOutcome)
    ensures
        field is None ==> r is NoField,
        field is Some && field.unwrap().file_name is None ==> r is MissingName,
        field is Some && field.unwrap().file_name is Some && has_separator(
            field.unwrap().file_name.unwrap()@,
        ) ==> r is InvalidName,
        field is Some && field.unwrap().file_name is Some && !has_separator(
            field.unwrap().file_name.unwrap()@,
        ) ==> r is Stored && r->Stored_0.hash@ == hash@ && r->Stored_0.name@
            == field.unwrap().file_name.unwrap()@ && r->Stored_0.stored_name@ == encoded(
            hash@,
            field.unwrap().file_name.unwrap()@,
        ) && r->Stored_0.size@ == humanized(field.unwrap().size as nat),
{
    match field {
        None => UploadOutcome::NoField,
        Some(f) => match f.file_name {
            None => UploadOutcome::MissingName,
            Some(name) => {
                if contains_separator(name.as_str()) {
                    UploadOutcome::InvalidName
                } else {
                    let stored_name = encode(hash.as_str(), name.as_str());
                    let size = humanize_bytes(f.size);
                    UploadOutcome::Stored(Uploaded { hash, name, stored_name, size })
                }
            },
        },
    }
}

/// The outcome of an upload whose first field is `field`, under a fresh
/// random hash of `HASH_LENGTH` characters.
pub fn upload(field: Option<UploadField>) -> (r: UploadOutcome)
    ensures
        field is None ==> r is NoField,
        field is Some && field.unwrap().file_name is None ==> r is MissingName,
        field is Some && field.unwrap().file_name is Some && has_separator(
            field.unwrap().file_name.unwrap()@,
        ) ==> r is InvalidName,
        field is Some && field.unwrap().file_name is Some && !has_separator(
            field.unwrap().file_name.unwrap()@,
        ) ==> r is Stored && r->Stored_0.hash@.len() == HASH_LENGTH && is_hash(
            r->Stored_0.hash@,
        ) && r->Stored_0.name@ == field.unwrap().file_name.unwrap()@
            && r->Stored_0.stored_name@ == encoded(
            r->Stored_0.hash@,
            field.unwrap().file_name.unwrap()@,
        ) && r->Stored_0.size@ == humanized(field.unwrap().size as nat),
{
    let hash = generate_hash(HASH_LENGTH);
    upload_with_hash(field, hash)
}

} // verus!
