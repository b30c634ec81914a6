//! Character-level text primitives shared by the parsers and serializers.
//!
//! Text is modelled as `Seq<char>`. Every executable routine here is specified
//! by a spec function over that model.

use vstd::prelude::*;
use vstd::string::*;

verus! {

/// Trusted: `String::push` of the standard library, for which vstd has no
/// specification. As its documentation says, it appends the character to the
/// end of the string.
pub assume_specification[ String::push ](s: &mut String, c: char)
    ensures
        final(s)@ == old(s)@.push(c),
;

/// The views of a sequence of strings.
pub open spec fn views(v: Seq<String>) -> Seq<Seq<char>> {
    v.map_values(|s: String| s@)
}

/// `pat` occurs in `s` starting at index `i`.
pub open spec fn matches_at(s: Seq<char>, pat: Seq<char>, i: int) -> bool {
    &&& 0 <= i
    &&& i + pat.len() <= s.len()
    &&& s.subrange(i, i + pat.len()) =~= pat
}

/// The index of the first occurrence of `pat` in `s` that starts at or after
/// `from`, if there is one. The empty pattern occurs at every index.
pub open spec fn first_match(s: Seq<char>, pat: Seq<char>, from: int) -> Option<int>
    decreases s.len() - from,
{
    if from < 0 || from + pat.len() > s.len() {
        None
    } else if pat.len() == 0 || matches_at(s, pat, from) {
        Some(from)
    } else {
        first_match(s, pat, from + 1)
    }
}

/// `pat` occurs somewhere in `s`.
pub open spec fn contains(s: Seq<char>, pat: Seq<char>) -> bool {
    first_match(s, pat, 0) is Some
}

/// The pieces of `s` from index `from` on, cut at every occurrence of the
/// non-empty separator `sep`, scanning left to right.
pub open spec fn split_from(s: Seq<char>, sep: Seq<char>, from: int) -> Seq<Seq<char>>
    decreases s.len() - from,
{
    match first_match(s, sep, from) {
        Some(i) if sep.len() > 0 => {
            proof {
                lemma_first_match(s, sep, from);
            }
            seq![s.subrange(from, i)] + split_from(s, sep, i + sep.len())
        },
        _ => seq![s.subrange(from, s.len() as int)],
    }
}

/// The pieces of `s` between occurrences of the non-empty separator `sep`.
/// There is always at least one piece; a text without the separator is its
/// own single piece.
pub open spec fn split(s: Seq<char>, sep: Seq<char>) -> Seq<Seq<char>> {
    split_from(s, sep, 0)
}

/// The text before and the text after the first occurrence of `sep` in `s`,
/// if `sep` occurs at all.
pub open spec fn split_once(s: Seq<char>, sep: Seq<char>) -> Option<(Seq<char>, Seq<char>)> {
    match first_match(s, sep, 0) {
        Some(i) => Some((s.take(i), s.skip(i + sep.len()))),
        None => None,
    }
}

/// The pieces put together again, with `sep` between each two.
pub open spec fn join(pieces: Seq<Seq<char>>, sep: Seq<char>) -> Seq<char>
    decreases pieces.len(),
{
    if pieces.len() == 0 {
        Seq::empty()
    } else if pieces.len() == 1 {
        pieces[0]
    } else {
        pieces[0] + sep + join(pieces.drop_first(), sep)
    }
}

/// The lower-case form of an ASCII upper-case letter; any other character is
/// left as it is.
pub open spec fn ascii_lower(c: char) -> char {
    if 'A' <= c <= 'Z' {
        ((c as u8) + 32) as char
    } else {
        c
    }
}

/// `s` with every ASCII upper-case letter replaced by its lower-case form.
pub open spec fn ascii_lowercase(s: Seq<char>) -> Seq<char> {
    s.map_values(|c: char| ascii_lower(c))
}

/// What `first_match` finds: a match at the returned index and none before it.
pub proof fn lemma_first_match(s: Seq<char>, pat: Seq<char>, from: int)
    ensures
        match first_match(s, pat, from) {
            Some(i) => from <= i && matches_at(s, pat, i) && forall|j: int|
                from <= j < i ==> !matches_at(s, pat, j),
            None => forall|j: int| 0 <= from <= j ==> !matches_at(s, pat, j),
        },
    decreases s.len() - from,
{
    if from < 0 || from + pat.len() > s.len() {
    } else if pat.len() == 0 || matches_at(s, pat, from) {
    } else {
        lemma_first_match(s, pat, from + 1);
    }
}

/// A match that has none before it, from `from` on, is the first match.
pub proof fn lemma_first_match_is(s: Seq<char>, pat: Seq<char>, from: int, i: int)
    requires
        0 <= from <= i,
        matches_at(s, pat, i),
        forall|j: int| from <= j < i ==> !matches_at(s, pat, j),
    ensures
        first_match(s, pat, from) == Some(i),
{
    lemma_first_match(s, pat, from);
}

/// Matches in a text keep their place, counted from the start of the text,
/// when something is put before it.
pub proof fn lemma_first_match_shift(before: Seq<char>, s: Seq<char>, pat: Seq<char>, from: int)
    requires
        0 <= from,
    ensures
        first_match(before + s, pat, before.len() + from) == match first_match(s, pat, from) {
            Some(i) => Some(before.len() + i),
            None => None,
        },
    decreases s.len() - from,
{
    let whole = before + s;
    if from + pat.len() <= s.len() && pat.len() > 0 {
        assert(whole.subrange(before.len() + from, before.len() + from + pat.len()) =~= s.subrange(
            from,
            from + pat.len(),
        ));
        if !matches_at(s, pat, from) {
            lemma_first_match_shift(before, s, pat, from + 1);
        }
    }
}

/// The pieces of a text stay the same when something is put before it and
/// the cutting starts behind that.
pub proof fn lemma_split_from_shift(before: Seq<char>, s: Seq<char>, sep: Seq<char>, from: int)
    requires
        0 <= from <= s.len(),
        sep.len() > 0,
    ensures
        split_from(before + s, sep, before.len() + from) == split_from(s, sep, from),
    decreases s.len() - from,
{
    let whole = before + s;
    lemma_first_match_shift(before, s, sep, from);
    lemma_first_match(s, sep, from);
    match first_match(s, sep, from) {
        Some(i) => {
            lemma_split_from_shift(before, s, sep, i + sep.len());
            assert(whole.subrange(before.len() + from, before.len() + i) =~= s.subrange(from, i));
        },
        None => {
            assert(whole.subrange(before.len() + from, whole.len() as int) =~= s.subrange(
                from,
                s.len() as int,
            ));
        },
    }
}

/// A one-character separator does not occur in a text that has no such
/// character.
pub proof fn lemma_contains_char(s: Seq<char>, sep: Seq<char>)
    requires
        sep.len() == 1,
    ensures
        contains(s, sep) <==> s.contains(sep[0]),
{
    lemma_first_match(s, sep, 0);
    match first_match(s, sep, 0) {
        Some(i) => {
            assert(s.subrange(i, i + 1)[0] == sep[0]);
            assert(s[i] == sep[0]);
        },
        None => {
            if s.contains(sep[0]) {
                let i = choose|i: int| 0 <= i < s.len() && s[i] == sep[0];
                assert(s.subrange(i, i + 1) =~= sep);
                assert(matches_at(s, sep, i));
            }
        },
    }
}

/// A pattern does not occur in a text that nowhere holds the pattern's first
/// character with room for the rest of it.
pub proof fn lemma_no_match_by_first_char(s: Seq<char>, pat: Seq<char>)
    requires
        pat.len() > 0,
        forall|j: int| 0 <= j && j + pat.len() <= s.len() ==> s[j] != pat[0],
    ensures
        !contains(s, pat),
{
    lemma_first_match(s, pat, 0);
    match first_match(s, pat, 0) {
        Some(i) => {
            assert(s.subrange(i, i + pat.len())[0] == pat[0]);
        },
        None => {},
    }
}

/// A text in which the separator does not occur is its own single piece.
pub proof fn lemma_split_none(s: Seq<char>, sep: Seq<char>)
    requires
        !contains(s, sep),
    ensures
        split(s, sep) == seq![s],
{
    assert(s.subrange(0, s.len() as int) =~= s);
}

/// Cutting `first`, a one-character separator and `rest`, where the
/// separator does not occur in `first`, gives `first` and the pieces of
/// `rest`.
pub proof fn lemma_split_first(first: Seq<char>, sep: Seq<char>, rest: Seq<char>)
    requires
        sep.len() == 1,
        !contains(first, sep),
    ensures
        split(first + sep + rest, sep) == seq![first] + split(rest, sep),
{
    let whole = first + sep + rest;
    lemma_first_match(first, sep, 0);
    assert(whole.subrange(first.len() as int, first.len() as int + 1) =~= sep);
    assert forall|j: int| 0 <= j < first.len() implies !matches_at(whole, sep, j) by {
        assert(whole.subrange(j, j + 1) =~= first.subrange(j, j + 1));
        assert(!matches_at(first, sep, j));
    }
    lemma_first_match_is(whole, sep, 0, first.len() as int);
    assert(whole.subrange(0, first.len() as int) =~= first);
    assert(whole =~= (first + sep) + rest);
    lemma_split_from_shift(first + sep, rest, sep, 0);
}

/// Joining the pieces of a text with the separator that cut them gives the
/// text back.
pub proof fn lemma_join_split_from(s: Seq<char>, sep: Seq<char>, from: int)
    requires
        0 <= from <= s.len(),
        sep.len() > 0,
    ensures
        split_from(s, sep, from).len() >= 1,
        join(split_from(s, sep, from), sep) == s.subrange(from, s.len() as int),
    decreases s.len() - from,
{
    lemma_first_match(s, sep, from);
    match first_match(s, sep, from) {
        Some(i) => {
            lemma_join_split_from(s, sep, i + sep.len());
            let rest = split_from(s, sep, i + sep.len());
            let pieces = seq![s.subrange(from, i)] + rest;
            assert(pieces.drop_first() =~= rest);
            assert(join(pieces, sep) == pieces[0] + sep + join(rest, sep));
            assert(s.subrange(from, i) + s.subrange(i, i + sep.len()) + s.subrange(
                i + sep.len(),
                s.len() as int,
            ) =~= s.subrange(from, s.len() as int));
        },
        None => {},
    }
}

/// Joining the pieces of a text with the separator that cut them gives the
/// text back.
pub proof fn lemma_join_split(s: Seq<char>, sep: Seq<char>)
    requires
        sep.len() > 0,
    ensures
        split(s, sep).len() >= 1,
        join(split(s, sep), sep) == s,
{
    lemma_join_split_from(s, sep, 0);
    assert(s.subrange(0, s.len() as int) =~= s);
}

/// Joining one more piece appends the separator and the piece, or the piece
/// alone if it is the first.
pub proof fn lemma_join_push(pieces: Seq<Seq<char>>, sep: Seq<char>, last: Seq<char>)
    ensures
        join(pieces.push(last), sep) == if pieces.len() == 0 {
            last
        } else {
            join(pieces, sep) + sep + last
        },
    decreases pieces.len(),
{
    let longer = pieces.push(last);
    if pieces.len() == 0 {
    } else if pieces.len() == 1 {
        assert(longer.drop_first() =~= seq![last]);
        assert(join(longer.drop_first(), sep) == last);
    } else {
        assert(longer.drop_first() =~= pieces.drop_first().push(last));
        lemma_join_push(pieces.drop_first(), sep, last);
        assert(join(longer, sep) == longer[0] + sep + join(longer.drop_first(), sep));
        assert(join(longer, sep) =~= join(pieces, sep) + sep + last);
    }
}

/// The characters of a string, as a vector.
pub fn to_chars(s: &str) -> (v: Vec<char>)
    ensures
        v@ == s@,
{
    let mut v: Vec<char> = Vec::new();
    for c in it: s.chars()
        invariant
            v@ == it.seq().take(it.index() as int),
            it.seq() == s@,
    {
        v.push(c);
    }
    v
}

/// The string made of the characters `s[from..to]`.
pub fn string_of(s: &[char], from: usize, to: usize) -> (out: String)
    requires
        from <= to <= s.len(),
    ensures
        out@ == s@.subrange(from as int, to as int),
{
    let mut out = String::new();
    let mut i: usize = from;
    while i < to
        invariant
            from <= i <= to <= s.len(),
            out@ == s@.subrange(from as int, i as int),
        decreases to - i,
    {
        out.push(s[i]);
        i += 1;
    }
    out
}

/// Whether `pat` occurs in `s` at index `i`.
pub fn matches_at_exec(s: &[char], pat: &[char], i: usize) -> (b: bool)
    ensures
        b == matches_at(s@, pat@, i as int),
{
    if pat.len() > s.len() || i > s.len() - pat.len() {
        return false;
    }
    let mut j: usize = 0;
    while j < pat.len()
        invariant
            j <= pat.len(),
            i + pat.len() <= s.len(),
            forall|k: int| 0 <= k < j ==> s@[i + k] == pat@[k],
        decreases pat.len() - j,
    {
        if s[i + j] != pat[j] {
            assert(s@.subrange(i as int, i + pat.len())[j as int] != pat@[j as int]);
            return false;
        }
        j += 1;
    }
    assert(s@.subrange(i as int, i + pat.len()) =~= pat@);
    true
}

/// The first occurrence of `pat` in `s` at or after `from`.
pub fn find(s: &[char], pat: &[char], from: usize) -> (r: Option<usize>)
    ensures
        match r {
            Some(i) => first_match(s@, pat@, from as int) == Some(i as int),
            None => first_match(s@, pat@, from as int) is None,
        },
{
    if pat.len() == 0 {
        return if from <= s.len() {
            Some(from)
        } else {
            None
        };
    }
    let mut i: usize = from;
    while i < s.len() && pat.len() <= s.len() - i
        invariant
            from <= i,
            pat.len() > 0,
            first_match(s@, pat@, from as int) == first_match(s@, pat@, i as int),
        decreases s.len() - i,
    {
        if matches_at_exec(s, pat, i) {
            return Some(i);
        }
        i += 1;
    }
    None
}

/// Cuts `s` at every occurrence of the non-empty separator `sep`.
pub fn split_chars(s: &[char], sep: &[char]) -> (pieces: Vec<String>)
    requires
        sep.len() > 0,
    ensures
        views(pieces@) == split(s@, sep@),
{
    let mut pieces: Vec<String> = Vec::new();
    let mut from: usize = 0;
    loop
        invariant_except_break
            from <= s.len(),
            split(s@, sep@) == views(pieces@) + split_from(s@, sep@, from as int),
        invariant
            sep.len() > 0,
        ensures
            views(pieces@) == split(s@, sep@),
        decreases s.len() - from,
    {
        proof {
            lemma_first_match(s@, sep@, from as int);
        }
        match find(s, sep, from) {
            Some(i) => {
                let piece = string_of(s, from, i);
                let ghost before = views(pieces@);
                pieces.push(piece);
                assert(views(pieces@) =~= before.push(s@.subrange(from as int, i as int)));
                assert(before + (seq![s@.subrange(from as int, i as int)] + split_from(
                    s@,
                    sep@,
                    i + sep.len(),
                )) =~= before.push(s@.subrange(from as int, i as int)) + split_from(
                    s@,
                    sep@,
                    i + sep.len(),
                ));
                from = i + sep.len();
            },
            None => {
                let piece = string_of(s, from, s.len());
                let ghost before = views(pieces@);
                pieces.push(piece);
                assert(views(pieces@) =~= before.push(s@.subrange(from as int, s.len() as int)));
                assert(before + seq![s@.subrange(from as int, s.len() as int)] =~= views(
                    pieces@,
                ));
                break ;
            },
        }
    }
    pieces
}

/// Cuts the string `s` at every occurrence of the non-empty separator `sep`.
pub fn split_str(s: &str, sep: &str) -> (pieces: Vec<String>)
    requires
        sep@.len() > 0,
    ensures
        views(pieces@) == split(s@, sep@),
{
    let chars = to_chars(s);
    let pat = to_chars(sep);
    split_chars(chars.as_slice(), pat.as_slice())
}

/// Cuts the string `s` in two at the first occurrence of `sep`.
pub fn split_once_str(s: &str, sep: &str) -> (halves: Option<(String, String)>)
    ensures
        match halves {
            Some((before, after)) => split_once(s@, sep@) == Some((before@, after@)),
            None => split_once(s@, sep@) is None,
        },
{
    let chars = to_chars(s);
    let pat = to_chars(sep);
    match find(chars.as_slice(), pat.as_slice(), 0) {
        Some(i) => {
            proof {
                lemma_first_match(s@, sep@, 0);
            }
            let before = string_of(chars.as_slice(), 0, i);
            let after = string_of(chars.as_slice(), i + pat.len(), chars.len());
            Some((before, after))
        },
        None => None,
    }
}

/// Puts the strings `pieces[from..]` together, with `sep` between each two.
pub fn join_strings(pieces: &[String], from: usize, sep: &str) -> (out: String)
    requires
        from <= pieces.len(),
    ensures
        out@ == join(views(pieces@).skip(from as int), sep@),
{
    let ghost all = views(pieces@).skip(from as int);
    let mut out = String::new();
    let mut i: usize = from;
    assert(all.take(0) =~= Seq::<Seq<char>>::empty());
    while i < pieces.len()
        invariant
            from <= i <= pieces.len(),
            all == views(pieces@).skip(from as int),
            out@ == join(all.take(i - from), sep@),
        decreases pieces.len() - i,
    {
        proof {
            lemma_join_push(all.take(i - from), sep@, pieces@[i as int]@);
            assert(all.take(i - from).push(pieces@[i as int]@) =~= all.take(i - from + 1));
        }
        if i > from {
            out.append(sep);
        }
        out.append(pieces[i].as_str());
        i += 1;
    }
    assert(all.take(i - from) =~= all);
    out
}

/// Whether `pat` occurs in the text `s`.
pub fn contains_chars(s: &[char], pat: &[char]) -> (b: bool)
    ensures
        b == contains(s@, pat@),
{
    find(s, pat, 0).is_some()
}

/// Folds one character to ASCII lower case.
pub fn lower_char(c: char) -> (r: char)
    ensures
        r == ascii_lower(c),
{
    if 'A' <= c && c <= 'Z' {
        ((c as u8) + 32) as char
    } else {
        c
    }
}

/// Folds a text to ASCII lower case.
pub fn lowercase_chars(s: &[char]) -> (out: Vec<char>)
    ensures
        out@ == ascii_lowercase(s@),
{
    let mut out: Vec<char> = Vec::new();
    let mut i: usize = 0;
    while i < s.len()
        invariant
            i <= s.len(),
            out@ == ascii_lowercase(s@.take(i as int)),
        decreases s.len() - i,
    {
        out.push(lower_char(s[i]));
        i += 1;
        assert(out@ =~= ascii_lowercase(s@.take(i as int)));
    }
    assert(s@.take(s.len() as int) =~= s@);
    out
}

} // verus!
