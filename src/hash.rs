//! Short random hashes over the alphabet `a-z0-9`.
use rand::Rng;
use vstd::prelude::*;

use crate::codec::{no_delimiter, DELIMITER};

verus! {

/// The characters that a hash is drawn from, in draw order.
pub open spec fn hash_alphabet() -> Seq<char> {
    seq![
        'a', 'b', 'c', 'd', 'e', 'f', 'g', 'h', 'i', 'j', 'k', 'l', 'm',
        'n', 'o', 'p', 'q', 'r', 's', 't', 'u', 'v', 'w', 'x', 'y', 'z',
        '0', '1', '2', '3', '4', '5', '6', '7', '8', '9',
    ]
}

/// `c` is a lowercase ASCII letter or an ASCII digit.
pub open spec fn is_hash_char(c: char) -> bool {
    ('a' <= c && c <= 'z') || ('0' <= c && c <= '9')
}

/// Every character of `s` may stand in a hash.
pub open spec fn is_hash(s: Seq<char>) -> bool {
    forall|i: int| 0 <= i < s.len() ==> is_hash_char(#[trigger] s[i])
}

/// The hash spelled by `draws`, each an index into the alphabet.
pub open spec fn hash_of_draws(draws: Seq<usize>) -> Seq<char> {
    draws.map_values(|k: usize| hash_alphabet()[k as int])
}

/// The alphabet holds exactly the hash characters, and no delimiter.
pub proof fn lemma_alphabet()
    ensures
        hash_alphabet().len() == 36,
        forall|k: int| 0 <= k < 36 ==> is_hash_char(#[trigger] hash_alphabet()[k]),
        forall|k: int| 0 <= k < 36 ==> #[trigger] hash_alphabet()[k] != DELIMITER,
{
}

/// A hash holds no delimiter, so it can lead a stored name.
pub proof fn lemma_hash_no_delimiter(s: Seq<char>)
    requires
        is_hash(s),
    ensures
        no_delimiter(s),
{
    assert forall|i: int| 0 <= i < s.len() implies s[i] != DELIMITER by {
        assert(is_hash_char(s[i]));
    }
}

/// Relies on rand::thread_rng and rand::Rng::gen_range: a value drawn from
/// `0..bound`, which must not be empty.
#[verifier::external_body]
fn random_below(bound: usize) -> (r: usize)
    requires
        bound > 0,
    ensures
        r < bound,
{
    rand::thread_rng().gen_range(0..bound)
}

/// The hash spelled by `draws`, each an index below 36 into `a-z0-9`.
pub fn hash_from_draws(draws: &Vec<usize>) -> (r: String)
    requires
        forall|i: int| 0 <= i < draws@.len() ==> #[trigger] draws@[i] < 36,
    ensures
        r@ == hash_of_draws(draws@),
        r@.len() == draws@.len(),
        is_hash(r@),
{
    let alphabet = "abcdefghijklmnopqrstuvwxyz0123456789";
    proof {
        reveal_strlit("abcdefghijklmnopqrstuvwxyz0123456789");
        assert(alphabet@ =~= hash_alphabet());
        lemma_alphabet();
    }
    let mut r = String::new();
    let mut i: usize = 0;
    while i < draws.len()
        invariant
            alphabet@ == hash_alphabet(),
            i <= draws@.len(),
            forall|j: int| 0 <= j < draws@.len() ==> #[trigger] draws@[j] < 36,
            r@ == hash_of_draws(draws@.subrange(0, i as int)),
        decreases draws@.len() - i,
    {
        let k = draws[i];
        r.append(alphabet.substring_char(k, k + 1));
        proof {
            assert(draws@.subrange(0, i + 1) =~= draws@.subrange(0, i as int).push(k));
            assert(r@ =~= hash_of_draws(draws@.subrange(0, i + 1)));
        }
        i = i + 1;
    }
    proof {
        assert(draws@.subrange(0, i as int) =~= draws@);
        lemma_alphabet();
        assert forall|j: int| 0 <= j < r@.len() implies is_hash_char(#[trigger] r@[j]) by {
            assert(r@[j] == hash_alphabet()[draws@[j] as int]);
        }
    }
    r
}

/// A fresh random hash of `len` characters from `a-z0-9`, each drawn
/// uniformly and independently.
pub fn generate_hash(len: usize) -> (r: String)
    ensures
        r@.len() == len,
        is_hash(r@),
        no_delimiter(r@),
{
    let mut draws: Vec<usize> = Vec::new();
    let mut i: usize = 0;
    while i < len
        invariant
            i <= len,
            draws@.len() == i,
            forall|j: int| 0 <= j < draws@.len() ==> #[trigger] draws@[j] < 36,
        decreases len - i,
    {
        draws.push(random_below(36));
        i = i + 1;
    }
    let r = hash_from_draws(&draws);
    proof {
        lemma_hash_no_delimiter(r@);
    }
    r
}

} // verus!
