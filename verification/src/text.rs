//! Verified text utilities: splitting a line on a delimiter character (with
//! and without a cap on the number of pieces), joining, counting delimiters,
//! ASCII case folding and whitespace trimming.
//!
//! These are the primitives the tokenizer and the arity matcher are built on.

use vstd::prelude::*;

verus! {

/// Relies on String::push: appends exactly the given character to the string.
pub assume_specification[ String::push ](s: &mut String, c: char)
    ensures
        final(s)@ == old(s)@.push(c),
;

// ---------------------------------------------------------------------------
// Spec: delimiter counting and location
// ---------------------------------------------------------------------------

/// How many times `d` occurs in `s`.
pub open spec fn count_occ(s: Seq<char>, d: char) -> nat
    decreases s.len(),
{
    if s.len() == 0 {
        0
    } else {
        count_occ(s.drop_last(), d) + if s.last() == d {
            1nat
        } else {
            0nat
        }
    }
}

/// Index of the first occurrence of `d` in `s`; `s.len()` if there is none.
pub open spec fn first_occ(s: Seq<char>, d: char) -> int
    decreases s.len(),
{
    if s.len() == 0 {
        0
    } else if s[0] == d {
        0
    } else {
        1 + first_occ(s.drop_first(), d)
    }
}

pub proof fn lemma_first_occ_props(s: Seq<char>, d: char)
    ensures
        0 <= first_occ(s, d) <= s.len(),
        forall|j: int| 0 <= j < first_occ(s, d) ==> s[j] != d,
        first_occ(s, d) < s.len() ==> s[first_occ(s, d)] == d,
    decreases s.len(),
{
    if s.len() == 0 {
    } else if s[0] == d {
    } else {
        lemma_first_occ_props(s.drop_first(), d);
        assert forall|j: int| 0 <= j < first_occ(s, d) implies s[j] != d by {
            if j > 0 {
                assert(s.drop_first()[j - 1] == s[j]);
            }
        }
        if first_occ(s, d) < s.len() {
            assert(s.drop_first()[first_occ(s.drop_first(), d)] == s[first_occ(s, d)]);
        }
    }
}

/// A scan that saw no `d` before `i`, and `d` (or the end) at `i`, found the
/// first occurrence.
pub proof fn lemma_first_occ_is(s: Seq<char>, d: char, i: int)
    requires
        0 <= i <= s.len(),
        forall|j: int| 0 <= j < i ==> s[j] != d,
        i < s.len() ==> s[i] == d,
    ensures
        first_occ(s, d) == i,
    decreases s.len(),
{
    if s.len() == 0 {
    } else if s[0] == d {
    } else {
        assert(i != 0);
        assert forall|j: int| 0 <= j < i - 1 implies s.drop_first()[j] != d by {
            assert(s.drop_first()[j] == s[j + 1]);
        }
        if i - 1 < s.drop_first().len() {
            assert(s.drop_first()[i - 1] == s[i]);
        }
        lemma_first_occ_is(s.drop_first(), d, i - 1);
    }
}

pub proof fn lemma_count_concat(a: Seq<char>, b: Seq<char>, d: char)
    ensures
        count_occ(a + b, d) == count_occ(a, d) + count_occ(b, d),
    decreases b.len(),
{
    if b.len() == 0 {
        assert(a + b =~= a);
    } else {
        assert((a + b).drop_last() =~= a + b.drop_last());
        assert((a + b).last() == b.last());
        lemma_count_concat(a, b.drop_last(), d);
    }
}

pub proof fn lemma_count_none(s: Seq<char>, d: char)
    requires
        forall|j: int| 0 <= j < s.len() ==> s[j] != d,
    ensures
        count_occ(s, d) == 0,
    decreases s.len(),
{
    if s.len() > 0 {
        lemma_count_none(s.drop_last(), d);
    }
}

/// Splitting off the head piece at the first occurrence removes one delimiter.
pub proof fn lemma_count_skip_first(s: Seq<char>, d: char)
    requires
        first_occ(s, d) < s.len(),
    ensures
        count_occ(s, d) == 1 + count_occ(s.skip(first_occ(s, d) + 1), d),
{
    let i = first_occ(s, d);
    lemma_first_occ_props(s, d);
    assert(s =~= s.take(i) + seq![s[i]] + s.skip(i + 1));
    lemma_count_concat(s.take(i) + seq![s[i]], s.skip(i + 1), d);
    lemma_count_concat(s.take(i), seq![s[i]], d);
    lemma_count_none(s.take(i), d);
    assert(count_occ(seq![s[i]], d) == 1) by {
        let u = seq![s[i]];
        assert(u.len() == 1);
        assert(u.last() == s[i]);
        assert(u.drop_last() =~= Seq::<char>::empty());
        assert(count_occ(Seq::<char>::empty(), d) == 0);
    }
}

// ---------------------------------------------------------------------------
// Spec: splitting and joining
// ---------------------------------------------------------------------------

/// Split `s` on every occurrence of `d`; consecutive delimiters produce empty
/// pieces, and the result always has at least one piece.
pub open spec fn split_spec(s: Seq<char>, d: char) -> Seq<Seq<char>>
    decreases s.len(),
{
    let i = first_occ(s, d);
    if 0 <= i && i < s.len() {
        seq![s.take(i)] + split_spec(s.skip(i + 1), d)
    } else {
        seq![s]
    }
}

/// Split `s` on `d` into at most `n` pieces; the last piece keeps the rest of
/// `s` verbatim, embedded delimiters included.
pub open spec fn splitn_spec(s: Seq<char>, n: nat, d: char) -> Seq<Seq<char>>
    decreases n,
{
    if n == 0 {
        seq![]
    } else {
        let i = first_occ(s, d);
        if n == 1 || !(0 <= i && i < s.len()) {
            seq![s]
        } else {
            seq![s.take(i)] + splitn_spec(s.skip(i + 1), (n - 1) as nat, d)
        }
    }
}

/// Concatenate pieces with `d` between them.
pub open spec fn join_spec(pieces: Seq<Seq<char>>, d: char) -> Seq<char>
    decreases pieces.len(),
{
    if pieces.len() == 0 {
        Seq::<char>::empty()
    } else if pieces.len() == 1 {
        pieces[0]
    } else {
        pieces[0] + seq![d] + join_spec(pieces.drop_first(), d)
    }
}

pub proof fn lemma_split_len(s: Seq<char>, d: char)
    ensures
        split_spec(s, d).len() == count_occ(s, d) + 1,
    decreases s.len(),
{
    let i = first_occ(s, d);
    lemma_first_occ_props(s, d);
    if i == s.len() {
        lemma_count_none(s, d);
    } else {
        lemma_split_len(s.skip(i + 1), d);
        lemma_count_skip_first(s, d);
    }
}

/// Joining the pieces of a split restores the original text.
pub proof fn lemma_join_split(s: Seq<char>, d: char)
    ensures
        join_spec(split_spec(s, d), d) == s,
    decreases s.len(),
{
    let i = first_occ(s, d);
    lemma_first_occ_props(s, d);
    if i == s.len() {
        assert(split_spec(s, d) == seq![s]);
        assert(join_spec(seq![s], d) == s);
    } else {
        lemma_join_split(s.skip(i + 1), d);
        let rest = split_spec(s.skip(i + 1), d);
        assert((seq![s.take(i)] + rest).drop_first() =~= rest);
        assert((seq![s.take(i)] + rest).len() >= 2);
        assert(join_spec(split_spec(s, d), d) =~= s.take(i) + seq![d] + s.skip(i + 1));
        assert(s.take(i) + seq![d] + s.skip(i + 1) =~= s);
    }
}

/// How a capped split relates to the uncapped one: the leading pieces agree,
/// and when the cap bites, the final piece is the remaining pieces joined
/// back together verbatim.
pub proof fn lemma_splitn_split(s: Seq<char>, n: nat, d: char)
    requires
        n >= 1,
    ensures
        splitn_spec(s, n, d).len() == vstd::math::min(n as int, split_spec(s, d).len() as int),
        forall|i: int|
            0 <= i < splitn_spec(s, n, d).len() - 1 ==> splitn_spec(s, n, d)[i] == split_spec(
                s,
                d,
            )[i],
        split_spec(s, d).len() <= n ==> splitn_spec(s, n, d) == split_spec(s, d),
        split_spec(s, d).len() > n ==> splitn_spec(s, n, d).last() == join_spec(
            split_spec(s, d).skip(n - 1),
            d,
        ),
    decreases n,
{
    let i = first_occ(s, d);
    lemma_first_occ_props(s, d);
    lemma_split_len(s, d);
    if i == s.len() {
        lemma_count_none(s, d);
    } else if n == 1 {
        lemma_join_split(s, d);
        assert(split_spec(s, d).skip(0) =~= split_spec(s, d));
    } else {
        lemma_splitn_split(s.skip(i + 1), (n - 1) as nat, d);
        lemma_split_len(s.skip(i + 1), d);
        let rest_split = split_spec(s.skip(i + 1), d);
        let rest_splitn = splitn_spec(s.skip(i + 1), (n - 1) as nat, d);
        assert(split_spec(s, d) =~= seq![s.take(i)] + rest_split);
        assert(splitn_spec(s, n, d) =~= seq![s.take(i)] + rest_splitn);
        assert forall|k: int| 0 <= k < splitn_spec(s, n, d).len() - 1 implies splitn_spec(
            s,
            n,
            d,
        )[k] == split_spec(s, d)[k] by {
            if k > 0 {
                assert(splitn_spec(s, n, d)[k] == rest_splitn[k - 1]);
                assert(split_spec(s, d)[k] == rest_split[k - 1]);
            }
        }
        if rest_split.len() + 1 <= n {
            assert(rest_splitn == rest_split);
            assert(splitn_spec(s, n, d) =~= split_spec(s, d));
        } else {
            assert(splitn_spec(s, n, d).last() == rest_splitn.last());
            assert(rest_splitn.last() == join_spec(rest_split.skip(n - 2), d));
            assert(split_spec(s, d).skip(n - 1) =~= rest_split.skip(n - 2));
        }
    }
}

// ---------------------------------------------------------------------------
// Spec: case folding and whitespace
// ---------------------------------------------------------------------------

/// ASCII lower-casing of one character; other characters are unchanged.
pub open spec fn lower_char(c: char) -> char {
    if 'A' <= c && c <= 'Z' {
        ((c as u8) + 32) as char
    } else {
        c
    }
}

pub open spec fn lower_seq(s: Seq<char>) -> Seq<char> {
    s.map_values(|c: char| lower_char(c))
}

pub open spec fn is_space_char(c: char) -> bool {
    c == ' ' || c == '\t' || c == '\r' || c == '\n'
}

pub open spec fn trim_front_spec(s: Seq<char>) -> Seq<char>
    decreases s.len(),
{
    if s.len() == 0 {
        s
    } else if is_space_char(s[0]) {
        trim_front_spec(s.drop_first())
    } else {
        s
    }
}

pub open spec fn trim_back_spec(s: Seq<char>) -> Seq<char>
    decreases s.len(),
{
    if s.len() == 0 {
        s
    } else if is_space_char(s.last()) {
        trim_back_spec(s.drop_last())
    } else {
        s
    }
}

/// ASCII whitespace removed from both ends.
pub open spec fn trim_spec(s: Seq<char>) -> Seq<char> {
    trim_back_spec(trim_front_spec(s))
}

proof fn lemma_trim_front_is(s: Seq<char>, a: int)
    requires
        0 <= a <= s.len(),
        forall|j: int| 0 <= j < a ==> is_space_char(s[j]),
        a < s.len() ==> !is_space_char(s[a]),
    ensures
        trim_front_spec(s) == s.skip(a),
    decreases s.len(),
{
    if s.len() == 0 {
        assert(s.skip(0) =~= s);
    } else if is_space_char(s[0]) {
        assert(a != 0);
        assert forall|j: int| 0 <= j < a - 1 implies is_space_char(s.drop_first()[j]) by {
            assert(s.drop_first()[j] == s[j + 1]);
        }
        if a - 1 < s.drop_first().len() {
            assert(s.drop_first()[a - 1] == s[a]);
        }
        lemma_trim_front_is(s.drop_first(), a - 1);
        assert(s.drop_first().skip(a - 1) =~= s.skip(a));
    } else {
        assert(a == 0);
        assert(s.skip(0) =~= s);
    }
}

proof fn lemma_trim_back_is(s: Seq<char>, b: int)
    requires
        0 <= b <= s.len(),
        forall|j: int| b <= j < s.len() ==> is_space_char(s[j]),
        b > 0 ==> !is_space_char(s[b - 1]),
    ensures
        trim_back_spec(s) == s.take(b),
    decreases s.len(),
{
    if s.len() == 0 {
        assert(s.take(0) =~= s);
    } else if is_space_char(s.last()) {
        assert(b != s.len());
        lemma_trim_back_is(s.drop_last(), b);
        assert(s.drop_last().take(b) =~= s.take(b));
    } else {
        assert(b == s.len());
        assert(s.take(b) =~= s);
    }
}

// ---------------------------------------------------------------------------
// Exec: counting, scanning, splitting
// ---------------------------------------------------------------------------

/// The views of a vector of strings, as a sequence of character sequences.
pub open spec fn views_of(v: Seq<String>) -> Seq<Seq<char>> {
    v.map_values(|s: String| s@)
}

/// Count the occurrences of `d` in `s`.
pub fn count_char(s: &str, d: char) -> (r: usize)
    ensures
        r == count_occ(s@, d),
{
    let n = s.unicode_len();
    let mut i: usize = 0;
    let mut r: usize = 0;
    while i < n
        invariant
            0 <= i <= n == s@.len(),
            r == count_occ(s@.take(i as int), d),
            r <= i,
        decreases n - i,
    {
        let c = s.get_char(i);
        proof {
            assert(s@.take(i + 1).drop_last() =~= s@.take(i as int));
            assert(s@.take(i + 1).last() == s@[i as int]);
        }
        if c == d {
            r = r + 1;
        }
        i = i + 1;
    }
    proof {
        assert(s@.take(n as int) =~= s@);
    }
    r
}

/// Index of the first occurrence of `d` in `s`, or the length of `s`.
pub fn find_char(s: &str, d: char) -> (r: usize)
    ensures
        r == first_occ(s@, d),
{
    let n = s.unicode_len();
    let mut i: usize = 0;
    while i < n
        invariant
            0 <= i <= n == s@.len(),
            forall|j: int| 0 <= j < i ==> s@[j] != d,
        decreases n - i,
    {
        if s.get_char(i) == d {
            proof {
                lemma_first_occ_is(s@, d, i as int);
            }
            return i;
        }
        i = i + 1;
    }
    proof {
        lemma_first_occ_is(s@, d, n as int);
    }
    n
}

/// Split `s` on every occurrence of `d`.
pub fn split_all(s: &str, d: char) -> (r: Vec<String>)
    ensures
        views_of(r@) == split_spec(s@, d),
{
    let n = s.unicode_len();
    let mut r: Vec<String> = Vec::new();
    let mut start: usize = 0;
    let mut i: usize = 0;
    proof {
        assert(s@.skip(0) =~= s@);
        assert(views_of(r@) =~= Seq::<Seq<char>>::empty());
        assert(views_of(r@) + split_spec(s@, d) =~= split_spec(s@, d));
    }
    while i < n
        invariant
            0 <= start <= i <= n == s@.len(),
            forall|j: int| start <= j < i ==> s@[j] != d,
            split_spec(s@, d) == views_of(r@) + split_spec(s@.skip(start as int), d),
        decreases n - i,
    {
        if s.get_char(i) == d {
            let ghost tail = s@.skip(start as int);
            proof {
                assert forall|j: int| 0 <= j < i - start implies tail[j] != d by {
                    assert(tail[j] == s@[start + j]);
                }
                assert(tail[i - start] == s@[i as int]);
                lemma_first_occ_is(tail, d, i - start);
                assert(tail.take(i - start) =~= s@.subrange(start as int, i as int));
                assert(tail.skip(i - start + 1) =~= s@.skip(i + 1));
            }
            let piece = s.substring_char(start, i).to_owned();
            proof {
                assert(split_spec(tail, d) == seq![tail.take(i - start)] + split_spec(
                    tail.skip(i - start + 1),
                    d,
                ));
                assert(views_of(r@.push(piece)) =~= views_of(r@).push(piece@));
                assert(views_of(r@) + split_spec(tail, d) =~= views_of(r@).push(piece@)
                    + split_spec(s@.skip(i + 1), d));
            }
            r.push(piece);
            start = i + 1;
        }
        i = i + 1;
    }
    let ghost tail = s@.skip(start as int);
    proof {
        assert forall|j: int| 0 <= j < tail.len() implies tail[j] != d by {
            assert(tail[j] == s@[start + j]);
        }
        lemma_first_occ_is(tail, d, tail.len() as int);
    }
    let piece = s.substring_char(start, n).to_owned();
    proof {
        assert(tail =~= s@.subrange(start as int, n as int));
        assert(split_spec(tail, d) == seq![tail]);
        assert(views_of(r@.push(piece)) =~= views_of(r@).push(piece@));
        assert(views_of(r@).push(tail) =~= views_of(r@) + seq![tail]);
    }
    r.push(piece);
    r
}

/// Split `s` on `d` into at most `n` pieces; the final piece keeps the rest
/// of the text verbatim.
pub fn split_first_n(s: &str, n: usize, d: char) -> (r: Vec<String>)
    requires
        n >= 1,
    ensures
        views_of(r@) == splitn_spec(s@, n as nat, d),
{
    let len = s.unicode_len();
    let mut r: Vec<String> = Vec::new();
    let mut start: usize = 0;
    let mut i: usize = 0;
    proof {
        assert(s@.skip(0) =~= s@);
        assert(views_of(r@) =~= Seq::<Seq<char>>::empty());
        assert(views_of(r@) + splitn_spec(s@, n as nat, d) =~= splitn_spec(s@, n as nat, d));
    }
    while i < len && r.len() < n - 1
        invariant
            0 <= start <= i <= len == s@.len(),
            n >= 1,
            r.len() < n,
            forall|j: int| start <= j < i ==> s@[j] != d,
            splitn_spec(s@, n as nat, d) == views_of(r@) + splitn_spec(
                s@.skip(start as int),
                (n - r.len()) as nat,
                d,
            ),
        decreases len - i,
    {
        if s.get_char(i) == d {
            let ghost tail = s@.skip(start as int);
            proof {
                assert forall|j: int| 0 <= j < i - start implies tail[j] != d by {
                    assert(tail[j] == s@[start + j]);
                }
                assert(tail[i - start] == s@[i as int]);
                lemma_first_occ_is(tail, d, i - start);
                assert(tail.take(i - start) =~= s@.subrange(start as int, i as int));
                assert(tail.skip(i - start + 1) =~= s@.skip(i + 1));
            }
            let piece = s.substring_char(start, i).to_owned();
            proof {
                let ghost m = (n - r@.len()) as nat;
                assert(m >= 2);
                assert(splitn_spec(tail, m, d) == seq![tail.take(i - start)] + splitn_spec(
                    tail.skip(i - start + 1),
                    (m - 1) as nat,
                    d,
                ));
                assert(views_of(r@.push(piece)) =~= views_of(r@).push(piece@));
                assert(views_of(r@) + splitn_spec(tail, m, d) =~= views_of(r@).push(piece@)
                    + splitn_spec(s@.skip(i + 1), (m - 1) as nat, d));
            }
            r.push(piece);
            start = i + 1;
        }
        i = i + 1;
    }
    let ghost tail = s@.skip(start as int);
    let ghost m = (n - r@.len()) as nat;
    if i == len {
        proof {
            assert forall|j: int| 0 <= j < tail.len() implies tail[j] != d by {
                assert(tail[j] == s@[start + j]);
            }
            lemma_first_occ_is(tail, d, tail.len() as int);
            assert(splitn_spec(tail, m, d) == seq![tail]);
        }
    } else {
        proof {
            assert(r@.len() == n - 1);
            assert(m == 1);
            assert(splitn_spec(tail, m, d) == seq![tail]);
        }
    }
    let piece = s.substring_char(start, len).to_owned();
    proof {
        assert(tail =~= s@.subrange(start as int, len as int));
        assert(views_of(r@.push(piece)) =~= views_of(r@).push(piece@));
        assert(views_of(r@).push(tail) =~= views_of(r@) + seq![tail]);
    }
    r.push(piece);
    r
}

// ---------------------------------------------------------------------------
// Exec: case folding, trimming, comparisons
// ---------------------------------------------------------------------------

/// ASCII lower-case a string; non-ASCII characters pass through unchanged.
pub fn to_lower(s: &str) -> (r: String)
    ensures
        r@ == lower_seq(s@),
{
    let n = s.unicode_len();
    let mut r = String::new();
    let mut i: usize = 0;
    while i < n
        invariant
            0 <= i <= n == s@.len(),
            r@ =~= lower_seq(s@.take(i as int)),
        decreases n - i,
    {
        let c = s.get_char(i);
        let lc: char = if c >= 'A' && c <= 'Z' {
            ((c as u8) + 32) as char
        } else {
            c
        };
        r.push(lc);
        proof {
            assert(lower_seq(s@.take(i + 1)) =~= lower_seq(s@.take(i as int)).push(
                lower_char(s@[i as int]),
            ));
        }
        i = i + 1;
    }
    proof {
        assert(s@.take(n as int) =~= s@);
    }
    r
}

/// Whether the character at index `i` is ASCII whitespace.
fn is_space_at(s: &str, i: usize) -> (r: bool)
    requires
        i < s@.len(),
    ensures
        r == is_space_char(s@[i as int]),
{
    let c = s.get_char(i);
    c == ' ' || c == '\t' || c == '\r' || c == '\n'
}

/// ASCII whitespace trimmed from both ends of `s`.
pub fn trim_str(s: &str) -> (r: &str)
    ensures
        r@ == trim_spec(s@),
{
    let n = s.unicode_len();
    let mut a: usize = 0;
    while a < n && is_space_at(s, a)
        invariant
            0 <= a <= n == s@.len(),
            forall|j: int| 0 <= j < a ==> is_space_char(s@[j]),
        decreases n - a,
    {
        a = a + 1;
    }
    let mut b: usize = n;
    while b > a && is_space_at(s, b - 1)
        invariant
            a <= b <= n == s@.len(),
            forall|j: int| b <= j < s@.len() ==> is_space_char(s@[j]),
        decreases b,
    {
        b = b - 1;
    }
    proof {
        lemma_trim_front_is(s@, a as int);
        let t = s@.skip(a as int);
        assert forall|j: int| b - a <= j < t.len() implies is_space_char(t[j]) by {
            assert(t[j] == s@[a + j]);
        }
        if b > a {
            assert(t[b - a - 1] == s@[b - 1]);
        }
        lemma_trim_back_is(t, b - a);
        assert(t.take(b - a) =~= s@.subrange(a as int, b as int));
    }
    s.substring_char(a, b)
}

/// Whether the views of two strings are equal.
pub fn str_eq(a: &str, b: &str) -> (r: bool)
    ensures
        r == (a@ == b@),
{
    let na = a.unicode_len();
    let nb = b.unicode_len();
    if na != nb {
        return false;
    }
    let mut i: usize = 0;
    while i < na
        invariant
            0 <= i <= na == a@.len(),
            nb == b@.len(),
            na == nb,
            forall|j: int| 0 <= j < i ==> a@[j] == b@[j],
        decreases na - i,
    {
        if a.get_char(i) != b.get_char(i) {
            return false;
        }
        i = i + 1;
    }
    proof {
        assert(a@ =~= b@);
    }
    true
}

/// Whether `s` starts with `prefix`.
pub fn str_starts_with(s: &str, prefix: &str) -> (r: bool)
    ensures
        r == prefix@.is_prefix_of(s@),
{
    let n = s.unicode_len();
    let np = prefix.unicode_len();
    if np > n {
        return false;
    }
    let mut i: usize = 0;
    while i < np
        invariant
            0 <= i <= np == prefix@.len(),
            np <= n == s@.len(),
            forall|j: int| 0 <= j < i ==> s@[j] == prefix@[j],
        decreases np - i,
    {
        if s.get_char(i) != prefix.get_char(i) {
            assert(!prefix@.is_prefix_of(s@));
            return false;
        }
        i = i + 1;
    }
    proof {
        assert(prefix@ =~= s@.subrange(0, np as int));
    }
    true
}

} // verus!
