//! The list of all stored files, as HTML items.
use vstd::prelude::*;

use crate::resolver::{files_view, StoredFile};
use crate::size::{humanize_bytes, humanized};

verus! {

/// The list item for a stored file: a link to its hash, labelled with its
/// original name and humanized size.
pub open spec fn listing_line(f: (Seq<char>, Seq<char>, Seq<char>, u64)) -> Seq<char> {
    "<li><a href=\""@ + f.1 + "\">"@ + f.2 + " ("@ + humanized(f.3 as nat) + ")</a></li>"@
}

/// The list items for `files`, in order.
pub open spec fn listing_lines(files: Seq<(Seq<char>, Seq<char>, Seq<char>, u64)>) -> Seq<char>
    decreases files.len(),
{
    if files.len() == 0 {
        seq![]
    } else {
        listing_lines(files.drop_last()) + listing_line(files.last())
    }
}

/// The list items for `files`, one per file, in order.
pub fn listing_html(files: &Vec<StoredFile>) -> (r: String)
    ensures
        r@ == listing_lines(files_view(files@)),
{
    let mut r = String::new();
    let mut i: usize = 0;
    while i < files.len()
        invariant
            i <= files@.len(),
            r@ == listing_lines(files_view(files@.subrange(0, i as int))),
        decreases files@.len() - i,
    {
        let f = &files[i];
        let ghost before = r@;
        proof {
            let fs = files_view(files@.subrange(0, i + 1));
            assert(fs.drop_last() =~= files_view(files@.subrange(0, i as int)));
            assert(fs.last() == f@);
        }
        r.append("<li><a href=\"");
        r.append(f.hash.as_str());
        r.append("\">");
        r.append(f.name.as_str());
        r.append(" (");
        let size = humanize_bytes(f.size);
        r.append(size.as_str());
        r.append(")</a></li>");
        proof {
            assert(r@ =~= before + listing_line(f@));
        }
        i = i + 1;
    }
    proof {
        assert(files@.subrange(0, i as int) =~= files@);
    }
    r
}

} // verus!
