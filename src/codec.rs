//! Stored file names: `{hash}_{original name}`, split at the first `_`.
use vstd::prelude::*;

verus! {

/// The character that joins a hash to the original file name.
pub const DELIMITER: char = '_';

/// `s` holds no delimiter.
pub open spec fn no_delimiter(s: Seq<char>) -> bool {
    forall|i: int| 0 <= i < s.len() ==> s[i] != DELIMITER
}

/// The stored name for `hash` and `name`.
pub open spec fn encoded(hash: Seq<char>, name: Seq<char>) -> Seq<char> {
    hash + seq![DELIMITER] + name
}

/// `stored` is `hash`, the delimiter, then `name`, and that delimiter is the
/// first one in `stored`.
pub open spec fn splits_at_first(stored: Seq<char>, hash: Seq<char>, name: Seq<char>) -> bool {
    stored == encoded(hash, name) && no_delimiter(hash)
}

/// The parts of a stored name, or `None` where it holds no delimiter.
pub open spec fn decoded(stored: Seq<char>) -> Option<(Seq<char>, Seq<char>)> {
    if no_delimiter(stored) {
        None
    } else {
        Some(choose|p: (Seq<char>, Seq<char>)| splits_at_first(stored, p.0, p.1))
    }
}

/// There is at most one way to split a stored name at its first delimiter.
pub proof fn lemma_split_unique(
    s: Seq<char>,
    h1: Seq<char>,
    n1: Seq<char>,
    h2: Seq<char>,
    n2: Seq<char>,
)
    requires
        splits_at_first(s, h1, n1),
        splits_at_first(s, h2, n2),
    ensures
        h1 == h2,
        n1 == n2,
{
    if h1.len() < h2.len() {
        assert(s[h1.len() as int] == DELIMITER);
        assert(s[h1.len() as int] == h2[h1.len() as int]);
    } else if h2.len() < h1.len() {
        assert(s[h2.len() as int] == DELIMITER);
        assert(s[h2.len() as int] == h1[h2.len() as int]);
    }
    assert(h1 =~= s.subrange(0, h1.len() as int));
    assert(h2 =~= s.subrange(0, h2.len() as int));
    assert(n1 =~= s.subrange(h1.len() as int + 1, s.len() as int));
    assert(n2 =~= s.subrange(h2.len() as int + 1, s.len() as int));
}

/// Where `stored` splits at its first delimiter into `hash` and `name`,
/// `decoded` gives exactly those parts.
pub proof fn lemma_decoded_split(stored: Seq<char>, hash: Seq<char>, name: Seq<char>)
    requires
        splits_at_first(stored, hash, name),
    ensures
        decoded(stored) == Some((hash, name)),
{
    assert(stored[hash.len() as int] == DELIMITER);
    assert(!no_delimiter(stored));
    let p = choose|p: (Seq<char>, Seq<char>)| splits_at_first(stored, p.0, p.1);
    assert(splits_at_first(stored, (hash, name).0, (hash, name).1));
    lemma_split_unique(stored, p.0, p.1, hash, name);
}

/// Decoding an encoded name gives back the hash and the whole original name,
/// whether or not the name itself holds delimiters, for every hash without
/// one (as every generated hash is).
pub proof fn lemma_decode_encode(hash: Seq<char>, name: Seq<char>)
    requires
        no_delimiter(hash),
    ensures
        decoded(encoded(hash, name)) == Some((hash, name)),
{
    lemma_decoded_split(encoded(hash, name), hash, name);
}

/// The stored name for `hash` and the original file name `name`.
pub fn encode(hash: &str, name: &str) -> (r: String)
    ensures
        r@ == encoded(hash@, name@),
{
    let mut r = String::from_str(hash);
    r.append("_");
    r.append(name);
    proof {
        reveal_strlit("_");
        assert(r@ =~= encoded(hash@, name@));
    }
    r
}

/// Splits a stored name at its first delimiter into the hash and the original
/// file name; `None` where the name holds no delimiter.
pub fn decode(stored: &str) -> (r: Option<(String, String)>)
    ensures
        r is None <==> no_delimiter(stored@),
        r matches Some(p) ==> splits_at_first(stored@, p.0@, p.1@),
        r matches Some(p) ==> decoded(stored@) == Some((p.0@, p.1@)),
{
    let n = stored.unicode_len();
    let mut i: usize = 0;
    while i < n
        invariant
            n == stored@.len(),
            i <= n,
            no_delimiter(stored@.subrange(0, i as int)),
        decreases n - i,
    {
        if stored.get_char(i) == DELIMITER {
            let hash = String::from_str(stored.substring_char(0, i));
            let name = String::from_str(stored.substring_char(i + 1, n));
            proof {
                assert(stored@ =~= encoded(hash@, name@));
                lemma_decoded_split(stored@, hash@, name@);
            }
            return Some((hash, name));
        }
        proof {
            assert(stored@.subrange(0, i + 1) =~= stored@.subrange(0, i as int).push(
                stored@[i as int],
            ));
        }
        i = i + 1;
    }
    proof {
        assert(stored@.subrange(0, n as int) =~= stored@);
    }
    None
}

} // verus!
