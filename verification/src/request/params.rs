//! Form-encoded parameters, as they stand in a query string or in a body:
//! `key=value` pairs joined by `&`.

use vstd::prelude::*;
use vstd::string::*;

use crate::error::Error;
use crate::string_map::{put, Entries, StringMap};
use crate::text::{split, split_str, views};

verus! {

/// The entries that a list of pairs gives, taken left to right, or `None` if
/// one of them is malformed. A pair is well formed if cutting it at `=` gives
/// exactly two pieces, the key and the value. A key that comes again
/// replaces the value it had.
pub open spec fn entries_of_pairs(pairs: Seq<Seq<char>>) -> Option<Entries>
    decreases pairs.len(),
{
    if pairs.len() == 0 {
        Some(Entries::empty())
    } else {
        let halves = split(pairs.last(), "="@);
        match entries_of_pairs(pairs.drop_last()) {
            Some(entries) if halves.len() == 2 => Some(put(entries, halves[0], halves[1])),
            _ => None,
        }
    }
}

/// The entries that a form-encoded text gives: the text is cut at `&` into
/// pairs. The empty text holds one pair, the empty one, which is malformed.
pub open spec fn parse_params_spec(text: Seq<char>) -> Option<Entries> {
    entries_of_pairs(split(text, "&"@))
}

/// A malformed pair spoils every list that it begins.
pub proof fn lemma_malformed_prefix(pairs: Seq<Seq<char>>, n: int)
    requires
        0 <= n <= pairs.len(),
        entries_of_pairs(pairs.take(n)) is None,
    ensures
        entries_of_pairs(pairs) is None,
    decreases pairs.len(),
{
    if n == pairs.len() {
        assert(pairs.take(n) =~= pairs);
    } else {
        assert(pairs.drop_last().take(n) =~= pairs.take(n));
        lemma_malformed_prefix(pairs.drop_last(), n);
    }
}

/// Parses a form-encoded text into its parameters.
pub fn parse_params(text: &str) -> (result: Result<StringMap, Error>)
    ensures
        match result {
            Ok(params) => parse_params_spec(text@) == Some(params.entries()),
            Err(e) => e == Error::MalformedQueryOrBodyParam && parse_params_spec(text@) is None,
        },
{
    proof {
        reveal_strlit("&");
        reveal_strlit("=");
    }
    let pairs = split_str(text, "&");
    let ghost all = split(text@, "&"@);
    let mut params = StringMap::new();
    let mut i: usize = 0;
    assert(all.take(0) =~= Seq::<Seq<char>>::empty());
    while i < pairs.len()
        invariant
            i <= pairs.len(),
            all == views(pairs@),
            all == split(text@, "&"@),
            "="@.len() > 0,
            entries_of_pairs(all.take(i as int)) == Some(params.entries()),
        decreases pairs.len() - i,
    {
        let mut halves = split_str(pairs[i].as_str(), "=");
        assert(all.take(i + 1).drop_last() =~= all.take(i as int));
        assert(all.take(i + 1).last() == pairs@[i as int]@);
        if halves.len() != 2 {
            proof {
                assert(views(halves@).len() == halves.len());
                assert(entries_of_pairs(all.take(i + 1)) is None);
                lemma_malformed_prefix(all, i + 1);
            }
            return Err(Error::MalformedQueryOrBodyParam);
        }
        assert(views(halves@)[0] == halves@[0]@);
        assert(views(halves@)[1] == halves@[1]@);
        let value = halves.pop().unwrap();
        let key = halves.pop().unwrap();
        params.insert(key, value);
        i += 1;
    }
    assert(all.take(i as int) =~= all);
    Ok(params)
}

} // verus!
