//! Sequence splitting and joining.
//!
//! HL7 payloads are decomposed by splitting on delimiter characters
//! (segment, field, repetition, component, subcomponent) and the MLLP
//! terminator is a two-byte window. The spec functions here define
//! splitting on a single element and on a two-element window, joining
//! with a separator, and the first occurrence of an element or a
//! window, together with the lemmas that relate them.

use vstd::prelude::*;
use vstd::string::*;

verus! {

/// No element of `s` equals `x`.
pub open spec fn free_of<A>(s: Seq<A>, x: A) -> bool {
    forall|i: int| 0 <= i < s.len() ==> s[i] != x
}

/// No two adjacent elements of `s` are `a` followed by `b`.
pub open spec fn free_of_pair<A>(s: Seq<A>, a: A, b: A) -> bool {
    forall|i: int| #![trigger s[i]] 0 <= i && i + 1 < s.len() ==> !(s[i] == a && s[i + 1] == b)
}

/// Index of the first occurrence of `x` in `s`, if any.
pub open spec fn first_index<A>(s: Seq<A>, x: A) -> Option<int>
    decreases s.len(),
{
    if s.len() == 0 {
        None
    } else if s[0] == x {
        Some(0int)
    } else {
        match first_index(s.drop_first(), x) {
            None => None,
            Some(i) => Some(i + 1),
        }
    }
}

/// Index of the first window `[a, b]` in `s`, if any.
pub open spec fn first_pair_index<A>(s: Seq<A>, a: A, b: A) -> Option<int>
    decreases s.len(),
{
    if s.len() < 2 {
        None
    } else if s[0] == a && s[1] == b {
        Some(0int)
    } else {
        match first_pair_index(s.drop_first(), a, b) {
            None => None,
            Some(i) => Some(i + 1),
        }
    }
}

/// `first_index` returns the least index holding `x`, or reports that none does.
pub proof fn lemma_first_index<A>(s: Seq<A>, x: A)
    ensures
        match first_index(s, x) {
            None => free_of(s, x),
            Some(i) => 0 <= i < s.len() && s[i] == x && free_of(s.take(i), x),
        },
    decreases s.len(),
{
    if s.len() == 0 {
    } else if s[0] == x {
        assert(free_of(s.take(0), x));
    } else {
        lemma_first_index(s.drop_first(), x);
        match first_index(s.drop_first(), x) {
            None => {
                assert forall|j: int| 0 <= j < s.len() implies s[j] != x by {
                    if j > 0 {
                        assert(s.drop_first()[j - 1] == s[j]);
                    }
                }
            },
            Some(i) => {
                assert(s.drop_first()[i] == s[i + 1]);
                assert forall|j: int| 0 <= j < i + 1 implies s[j] != x by {
                    if j > 0 {
                        assert(s.drop_first().take(i)[j - 1] == s[j]);
                    }
                }
                assert(free_of(s.take(i + 1), x));
            },
        }
    }
}

/// Converse direction: an element at `i` with none before it pins `first_index`.
pub proof fn lemma_first_index_at<A>(s: Seq<A>, x: A, i: int)
    requires
        0 <= i < s.len(),
        s[i] == x,
        forall|j: int| 0 <= j < i ==> s[j] != x,
    ensures
        first_index(s, x) == Some(i),
    decreases i,
{
    if i > 0 {
        assert(s.drop_first()[i - 1] == s[i]);
        assert forall|j: int| 0 <= j < i - 1 implies s.drop_first()[j] != x by {
            assert(s.drop_first()[j] == s[j + 1]);
        }
        lemma_first_index_at(s.drop_first(), x, i - 1);
    }
}

/// `first_pair_index` returns the least index starting a window `[a, b]`.
pub proof fn lemma_first_pair_index<A>(s: Seq<A>, a: A, b: A)
    ensures
        match first_pair_index(s, a, b) {
            None => free_of_pair(s, a, b),
            Some(i) => {
                &&& 0 <= i
                &&& i + 1 < s.len()
                &&& s[i] == a
                &&& s[i + 1] == b
                &&& free_of_pair(s.take(i + 1), a, b)
            },
        },
    decreases s.len(),
{
    if s.len() < 2 {
    } else if s[0] == a && s[1] == b {
    } else {
        lemma_first_pair_index(s.drop_first(), a, b);
        match first_pair_index(s.drop_first(), a, b) {
            None => {
                assert forall|j: int| #![trigger s[j]] 0 <= j && j + 1 < s.len() implies !(s[j]
                    == a && s[j + 1] == b) by {
                    if j > 0 {
                        assert(s.drop_first()[j - 1] == s[j]);
                        assert(s.drop_first()[j] == s[j + 1]);
                    }
                }
            },
            Some(i) => {
                assert(s.drop_first()[i] == s[i + 1]);
                assert(s.drop_first()[i + 1] == s[i + 2]);
                let t = s.take(i + 2);
                assert forall|j: int| #![trigger t[j]] 0 <= j && j + 1 < t.len() implies !(t[j]
                    == a && t[j + 1] == b) by {
                    if j > 0 {
                        assert(s.drop_first().take(i + 1)[j - 1] == s[j]);
                        assert(s.drop_first().take(i + 1)[j] == s[j + 1]);
                    }
                }
            },
        }
    }
}

/// Converse direction for `first_pair_index`.
pub proof fn lemma_first_pair_index_at<A>(s: Seq<A>, a: A, b: A, i: int)
    requires
        0 <= i,
        i + 1 < s.len(),
        s[i] == a,
        s[i + 1] == b,
        forall|j: int| #![trigger s[j]] 0 <= j < i ==> !(s[j] == a && s[j + 1] == b),
    ensures
        first_pair_index(s, a, b) == Some(i),
    decreases i,
{
    if i > 0 {
        assert(s.drop_first()[i - 1] == s[i]);
        assert(s.drop_first()[i] == s[i + 1]);
        assert forall|j: int| #![trigger s.drop_first()[j]] 0 <= j < i - 1 implies !(
        s.drop_first()[j] == a && s.drop_first()[j + 1] == b) by {
            assert(s.drop_first()[j] == s[j + 1]);
            assert(s.drop_first()[j + 1] == s[j + 2]);
        }
        lemma_first_pair_index_at(s.drop_first(), a, b, i - 1);
    }
}

/// The tokens of `s` delimited by `d`: splitting always yields one more
/// token than there are occurrences of `d`, so the result is never empty.
pub open spec fn split_on<A>(s: Seq<A>, d: A) -> Seq<Seq<A>>
    decreases s.len(),
{
    if s.len() == 0 {
        seq![Seq::<A>::empty()]
    } else if s[0] == d {
        seq![Seq::<A>::empty()] + split_on(s.drop_first(), d)
    } else {
        let rest = split_on(s.drop_first(), d);
        seq![seq![s[0]] + rest[0]] + rest.drop_first()
    }
}

/// The tokens of `s` delimited by the two-element window `[a, b]`.
pub open spec fn split_on_pair<A>(s: Seq<A>, a: A, b: A) -> Seq<Seq<A>>
    decreases s.len(),
{
    if s.len() < 2 {
        seq![s]
    } else if s[0] == a && s[1] == b {
        seq![Seq::<A>::empty()] + split_on_pair(s.skip(2), a, b)
    } else {
        let rest = split_on_pair(s.drop_first(), a, b);
        seq![seq![s[0]] + rest[0]] + rest.drop_first()
    }
}

/// The tokens interleaved with the separator `d`.
pub open spec fn join_with<A>(parts: Seq<Seq<A>>, d: A) -> Seq<A>
    decreases parts.len(),
{
    if parts.len() == 0 {
        Seq::empty()
    } else if parts.len() == 1 {
        parts[0]
    } else {
        parts[0] + seq![d] + join_with(parts.drop_first(), d)
    }
}

pub proof fn lemma_split_on_len<A>(s: Seq<A>, d: A)
    ensures
        split_on(s, d).len() >= 1,
    decreases s.len(),
{
    if s.len() == 0 {
    } else if s[0] == d {
        lemma_split_on_len(s.drop_first(), d);
    } else {
        lemma_split_on_len(s.drop_first(), d);
    }
}

pub proof fn lemma_split_on_pair_len<A>(s: Seq<A>, a: A, b: A)
    ensures
        split_on_pair(s, a, b).len() >= 1,
    decreases s.len(),
{
    if s.len() < 2 {
    } else if s[0] == a && s[1] == b {
        lemma_split_on_pair_len(s.skip(2), a, b);
    } else {
        lemma_split_on_pair_len(s.drop_first(), a, b);
    }
}

/// A sequence without the delimiter is one single token.
pub proof fn lemma_split_on_no_delim<A>(s: Seq<A>, d: A)
    requires
        free_of(s, d),
    ensures
        split_on(s, d) == seq![s],
    decreases s.len(),
{
    if s.len() == 0 {
        assert(s =~= Seq::<A>::empty());
    } else {
        assert forall|j: int| 0 <= j < s.drop_first().len() implies s.drop_first()[j] != d by {
            assert(s.drop_first()[j] == s[j + 1]);
        }
        lemma_split_on_no_delim(s.drop_first(), d);
        let rest = split_on(s.drop_first(), d);
        assert(rest[0] == s.drop_first());
        assert(seq![s[0]] + rest[0] =~= s);
        assert(rest.drop_first() =~~= Seq::<Seq<A>>::empty());
        assert(split_on(s, d) =~~= seq![s]);
    }
}

/// A sequence without the window is one single token.
pub proof fn lemma_split_on_pair_no_sep<A>(s: Seq<A>, a: A, b: A)
    requires
        free_of_pair(s, a, b),
    ensures
        split_on_pair(s, a, b) == seq![s],
    decreases s.len(),
{
    if s.len() < 2 {
    } else {
        assert(!(s[0] == a && s[1] == b));
        assert forall|j: int| #![trigger s.drop_first()[j]] 0 <= j && j + 1 < s.drop_first().len()
            implies !(s.drop_first()[j] == a && s.drop_first()[j + 1] == b) by {
            assert(s.drop_first()[j] == s[j + 1]);
            assert(s.drop_first()[j + 1] == s[j + 2]);
        }
        lemma_split_on_pair_no_sep(s.drop_first(), a, b);
        let rest = split_on_pair(s.drop_first(), a, b);
        assert(rest[0] == s.drop_first());
        assert(seq![s[0]] + rest[0] =~= s);
        assert(rest.drop_first() =~~= Seq::<Seq<A>>::empty());
        assert(split_on_pair(s, a, b) =~~= seq![s]);
    }
}

/// Splitting distributes over a delimiter between a delimiter-free prefix
/// and an arbitrary suffix.
pub proof fn lemma_split_on_concat<A>(x: Seq<A>, y: Seq<A>, d: A)
    requires
        free_of(x, d),
    ensures
        split_on(x + seq![d] + y, d) == seq![x] + split_on(y, d),
    decreases x.len(),
{
    let s = x + seq![d] + y;
    if x.len() == 0 {
        assert(s[0] == d);
        assert(s.drop_first() =~= y);
        assert(x =~= Seq::<A>::empty());
        assert(split_on(s, d) =~~= seq![x] + split_on(y, d));
    } else {
        assert(s[0] == x[0]);
        assert(s[0] != d);
        assert(s.drop_first() =~= x.drop_first() + seq![d] + y);
        assert forall|j: int| 0 <= j < x.drop_first().len() implies x.drop_first()[j] != d by {
            assert(x.drop_first()[j] == x[j + 1]);
        }
        lemma_split_on_concat(x.drop_first(), y, d);
        lemma_split_on_len(y, d);
        let rest = split_on(s.drop_first(), d);
        assert(rest =~~= seq![x.drop_first()] + split_on(y, d));
        assert(rest[0] == x.drop_first());
        assert(seq![s[0]] + rest[0] =~= x);
        assert(rest.drop_first() =~~= split_on(y, d));
        assert(split_on(s, d) =~~= seq![x] + split_on(y, d));
    }
}

/// The two-element analogue of `lemma_split_on_concat`; it asks that the
/// window's two elements differ, so that no window can straddle the
/// boundary between the prefix and the separator.
pub proof fn lemma_split_on_pair_concat<A>(x: Seq<A>, y: Seq<A>, a: A, b: A)
    requires
        a != b,
        free_of_pair(x, a, b),
    ensures
        split_on_pair(x + seq![a, b] + y, a, b) == seq![x] + split_on_pair(y, a, b),
    decreases x.len(),
{
    let s = x + seq![a, b] + y;
    assert(s.len() >= 2);
    if x.len() == 0 {
        assert(s[0] == a && s[1] == b);
        assert(s.skip(2) =~= y);
        assert(x =~= Seq::<A>::empty());
        assert(split_on_pair(s, a, b) =~~= seq![x] + split_on_pair(y, a, b));
    } else {
        assert(s[0] == x[0]);
        if x.len() == 1 {
            assert(s[1] == a);
        } else {
            assert(s[1] == x[1]);
            assert(!(x[0] == a && x[1] == b));
        }
        assert(!(s[0] == a && s[1] == b));
        assert(s.drop_first() =~= x.drop_first() + seq![a, b] + y);
        assert forall|j: int| #![trigger x.drop_first()[j]] 0 <= j && j + 1 < x.drop_first().len()
            implies !(x.drop_first()[j] == a && x.drop_first()[j + 1] == b) by {
            assert(x.drop_first()[j] == x[j + 1]);
            assert(x.drop_first()[j + 1] == x[j + 2]);
        }
        lemma_split_on_pair_concat(x.drop_first(), y, a, b);
        lemma_split_on_pair_len(y, a, b);
        let rest = split_on_pair(s.drop_first(), a, b);
        assert(rest =~~= seq![x.drop_first()] + split_on_pair(y, a, b));
        assert(rest[0] == x.drop_first());
        assert(seq![s[0]] + rest[0] =~= x);
        assert(rest.drop_first() =~~= split_on_pair(y, a, b));
        assert(split_on_pair(s, a, b) =~~= seq![x] + split_on_pair(y, a, b));
    }
}

/// Joining the tokens of a split restores the original sequence.
pub proof fn lemma_join_split_on<A>(s: Seq<A>, d: A)
    ensures
        join_with(split_on(s, d), d) == s,
    decreases s.len(),
{
    if s.len() == 0 {
        assert(join_with(split_on(s, d), d) =~= s);
    } else if s[0] == d {
        lemma_join_split_on(s.drop_first(), d);
        lemma_split_on_len(s.drop_first(), d);
        let sp = split_on(s, d);
        assert(sp.drop_first() =~~= split_on(s.drop_first(), d));
        assert(join_with(sp, d) =~= s);
    } else {
        lemma_join_split_on(s.drop_first(), d);
        lemma_split_on_len(s.drop_first(), d);
        let rest = split_on(s.drop_first(), d);
        let sp = split_on(s, d);
        if rest.len() == 1 {
            assert(join_with(rest, d) == rest[0]);
            assert(sp.len() == 1);
            assert(join_with(sp, d) == seq![s[0]] + rest[0]);
            assert(seq![s[0]] + rest[0] =~= s);
        } else {
            assert(sp.drop_first() =~~= rest.drop_first());
            assert(join_with(rest, d) == rest[0] + seq![d] + join_with(rest.drop_first(), d));
            assert(join_with(sp, d) == (seq![s[0]] + rest[0]) + seq![d] + join_with(
                rest.drop_first(),
                d,
            ));
            assert(s.drop_first() =~= rest[0] + seq![d] + join_with(rest.drop_first(), d));
            assert(s =~= seq![s[0]] + s.drop_first());
            assert((seq![s[0]] + rest[0]) + seq![d] + join_with(rest.drop_first(), d) =~= s);
        }
    }
}

/// Splitting a join of delimiter-free tokens restores the tokens.
pub proof fn lemma_split_on_join<A>(parts: Seq<Seq<A>>, d: A)
    requires
        parts.len() >= 1,
        forall|i: int| 0 <= i < parts.len() ==> free_of(#[trigger] parts[i], d),
    ensures
        split_on(join_with(parts, d), d) == parts,
    decreases parts.len(),
{
    if parts.len() == 1 {
        lemma_split_on_no_delim(parts[0], d);
        assert(split_on(join_with(parts, d), d) =~~= parts);
    } else {
        let tail = parts.drop_first();
        assert(forall|i: int| 0 <= i < tail.len() ==> tail[i] == parts[i + 1]);
        lemma_split_on_join(tail, d);
        lemma_split_on_concat(parts[0], join_with(tail, d), d);
        assert(seq![parts[0]] + tail =~~= parts);
    }
}

/// Appending one more token to a non-empty join inserts one separator.
pub proof fn lemma_join_with_push<A>(parts: Seq<Seq<A>>, tok: Seq<A>, d: A)
    requires
        parts.len() >= 1,
    ensures
        join_with(parts.push(tok), d) == join_with(parts, d) + seq![d] + tok,
    decreases parts.len(),
{
    let p = parts.push(tok);
    if parts.len() == 1 {
        assert(p.drop_first() =~~= seq![tok]);
        assert(join_with(seq![tok], d) == tok);
        assert(join_with(p, d) =~= parts[0] + seq![d] + tok);
    } else {
        assert(p.drop_first() =~~= parts.drop_first().push(tok));
        lemma_join_with_push(parts.drop_first(), tok, d);
        assert(join_with(p, d) =~= join_with(parts, d) + seq![d] + tok);
    }
}

/// `s` begins with the characters of `p`.
pub open spec fn starts_with(s: Seq<char>, p: Seq<char>) -> bool {
    p.len() <= s.len() && s.take(p.len() as int) == p
}

/// The decimal digits of `n`, most significant first, without sign or padding.
pub open spec fn digit_char(d: nat) -> char {
    if d == 0 {
        '0'
    } else if d == 1 {
        '1'
    } else if d == 2 {
        '2'
    } else if d == 3 {
        '3'
    } else if d == 4 {
        '4'
    } else if d == 5 {
        '5'
    } else if d == 6 {
        '6'
    } else if d == 7 {
        '7'
    } else if d == 8 {
        '8'
    } else {
        '9'
    }
}

pub open spec fn decimal_digits(n: nat) -> Seq<char>
    decreases n,
{
    if n < 10 {
        seq![digit_char(n)]
    } else {
        decimal_digits(n / 10) + seq![digit_char(n % 10)]
    }
}

/// Relies on char::to_string from std: the result is the one-character
/// string holding exactly this character.
#[verifier::external_body]
pub fn char_to_string(c: char) -> (s: String)
    ensures
        s@ == seq![c],
{
    c.to_string()
}

/// The tokens of `s` delimited by `d`, as owned strings.
pub fn split_str(s: &str, d: char) -> (parts: Vec<String>)
    ensures
        parts.deep_view() == split_on(s@, d),
{
    let n = s.unicode_len();
    let mut parts: Vec<String> = Vec::new();
    let mut start: usize = 0;
    let mut i: usize = 0;
    proof {
        assert(s@.subrange(0, n as int) =~= s@);
    }
    while i < n
        invariant
            start <= i <= n,
            n as nat == s@.len(),
            forall|j: int| start <= j < i ==> s@[j] != d,
            split_on(s@, d) == parts.deep_view() + split_on(
                s@.subrange(start as int, n as int),
                d,
            ),
        decreases n - i,
    {
        let c = s.get_char(i);
        if c == d {
            let ghost done = parts.deep_view();
            let ghost pre = s@.subrange(start as int, i as int);
            let ghost post = s@.subrange(i as int + 1, n as int);
            let tok = s.substring_char(start, i).to_owned();
            parts.push(tok);
            proof {
                assert(s@.subrange(start as int, n as int) =~= pre + seq![d] + post);
                assert(free_of(pre, d));
                lemma_split_on_concat(pre, post, d);
                assert(parts.deep_view() =~~= done.push(pre));
                assert(split_on(s@, d) =~~= parts.deep_view() + split_on(post, d));
            }
            start = i + 1;
        }
        i = i + 1;
    }
    let tok = s.substring_char(start, n).to_owned();
    let ghost done = parts.deep_view();
    parts.push(tok);
    proof {
        let pre = s@.subrange(start as int, n as int);
        assert(free_of(pre, d));
        lemma_split_on_no_delim(pre, d);
        assert(parts.deep_view() =~~= done.push(pre));
        assert(done + seq![pre] =~~= done.push(pre));
        assert(parts.deep_view() =~~= split_on(s@, d));
    }
    parts
}

/// The tokens of `s` delimited by the window `[a, b]`, as owned strings.
pub fn split_str_pair(s: &str, a: char, b: char) -> (parts: Vec<String>)
    requires
        a != b,
    ensures
        parts.deep_view() == split_on_pair(s@, a, b),
{
    let n = s.unicode_len();
    let mut parts: Vec<String> = Vec::new();
    let mut start: usize = 0;
    let mut i: usize = 0;
    proof {
        assert(s@.subrange(0, n as int) =~= s@);
    }
    while i < n && i + 1 < n
        invariant
            start <= i <= n,
            n as nat == s@.len(),
            a != b,
            forall|j: int| #![trigger s@[j]] start <= j < i ==> !(s@[j] == a && s@[j + 1] == b),
            split_on_pair(s@, a, b) == parts.deep_view() + split_on_pair(
                s@.subrange(start as int, n as int),
                a,
                b,
            ),
        decreases n - i,
    {
        let c0 = s.get_char(i);
        let c1 = s.get_char(i + 1);
        if c0 == a && c1 == b {
            let ghost done = parts.deep_view();
            let ghost pre = s@.subrange(start as int, i as int);
            let ghost post = s@.subrange(i as int + 2, n as int);
            let tok = s.substring_char(start, i).to_owned();
            parts.push(tok);
            proof {
                assert(s@.subrange(start as int, n as int) =~= pre + seq![a, b] + post);
                assert forall|k: int| #![trigger pre[k]] 0 <= k && k + 1 < pre.len() implies !(
                pre[k] == a && pre[k + 1] == b) by {
                    assert(s@[start + k] == pre[k]);
                    assert(s@[start + k + 1] == pre[k + 1]);
                }
                lemma_split_on_pair_concat(pre, post, a, b);
                assert(parts.deep_view() =~~= done.push(pre));
                assert(split_on_pair(s@, a, b) =~~= parts.deep_view() + split_on_pair(post, a, b));
            }
            start = i + 2;
            i = i + 2;
        } else {
            i = i + 1;
        }
    }
    let tok = s.substring_char(start, n).to_owned();
    let ghost done = parts.deep_view();
    parts.push(tok);
    proof {
        let pre = s@.subrange(start as int, n as int);
        assert forall|k: int| #![trigger pre[k]] 0 <= k && k + 1 < pre.len() implies !(pre[k] == a
            && pre[k + 1] == b) by {
            assert(s@[start + k] == pre[k]);
            assert(s@[start + k + 1] == pre[k + 1]);
        }
        lemma_split_on_pair_no_sep(pre, a, b);
        assert(parts.deep_view() =~~= done.push(pre));
        assert(done + seq![pre] =~~= done.push(pre));
        assert(parts.deep_view() =~~= split_on_pair(s@, a, b));
    }
    parts
}

/// Whether `s` holds the character `d` anywhere.
pub fn str_contains_char(s: &str, d: char) -> (r: bool)
    ensures
        r == !free_of(s@, d),
{
    let n = s.unicode_len();
    let mut i: usize = 0;
    while i < n
        invariant
            i <= n,
            n as nat == s@.len(),
            forall|j: int| 0 <= j < i ==> s@[j] != d,
        decreases n - i,
    {
        if s.get_char(i) == d {
            proof {
                assert(s@[i as int] == d);
            }
            return true;
        }
        i = i + 1;
    }
    false
}

/// The index of the first occurrence of `d` in `s`, if any.
pub fn find_char(s: &str, d: char) -> (r: Option<usize>)
    ensures
        match r {
            Some(i) => first_index(s@, d) == Some(i as int),
            None => first_index(s@, d) is None,
        },
{
    let n = s.unicode_len();
    let mut i: usize = 0;
    while i < n
        invariant
            i <= n,
            n as nat == s@.len(),
            forall|j: int| 0 <= j < i ==> s@[j] != d,
        decreases n - i,
    {
        if s.get_char(i) == d {
            proof {
                lemma_first_index_at(s@, d, i as int);
            }
            return Some(i);
        }
        i = i + 1;
    }
    proof {
        lemma_first_index(s@, d);
        match first_index(s@, d) {
            Some(k) => {
                assert(s@[k] == d);
            },
            None => {},
        }
    }
    None
}

/// Whether two strings hold the same characters.
pub fn str_eq(a: &str, b: &str) -> (r: bool)
    ensures
        r == (a@ == b@),
{
    let n = a.unicode_len();
    let m = b.unicode_len();
    if n != m {
        return false;
    }
    let mut i: usize = 0;
    while i < n
        invariant
            i <= n,
            n as nat == a@.len(),
            n as nat == b@.len(),
            forall|j: int| 0 <= j < i ==> a@[j] == b@[j],
        decreases n - i,
    {
        if a.get_char(i) != b.get_char(i) {
            proof {
                assert(a@[i as int] != b@[i as int]);
            }
            return false;
        }
        i = i + 1;
    }
    proof {
        assert(a@ =~= b@);
    }
    true
}

/// Whether `s` begins with `prefix`.
pub fn starts_with_str(s: &str, prefix: &str) -> (r: bool)
    ensures
        r == starts_with(s@, prefix@),
{
    let n = s.unicode_len();
    let m = prefix.unicode_len();
    if m > n {
        return false;
    }
    let mut i: usize = 0;
    while i < m
        invariant
            i <= m,
            m as nat == prefix@.len(),
            n as nat == s@.len(),
            m <= n,
            forall|j: int| 0 <= j < i ==> s@[j] == prefix@[j],
        decreases m - i,
    {
        if s.get_char(i) != prefix.get_char(i) {
            proof {
                assert(s@.take(m as int)[i as int] != prefix@[i as int]);
            }
            return false;
        }
        i = i + 1;
    }
    proof {
        assert(s@.take(m as int) =~= prefix@);
    }
    true
}

/// The strings of `parts` interleaved with the separator `sep`.
pub fn join_strings(parts: &Vec<String>, sep: char) -> (r: String)
    ensures
        r@ == join_with(parts.deep_view(), sep),
{
    if parts.len() == 0 {
        let r = String::new();
        proof {
            assert(r@ =~= join_with(parts.deep_view(), sep));
        }
        return r;
    }
    let mut out = parts[0].clone();
    proof {
        assert(join_with(parts.deep_view().take(1), sep) == parts.deep_view()[0]);
    }
    let mut i: usize = 1;
    while i < parts.len()
        invariant
            1 <= i <= parts.len(),
            out@ == join_with(parts.deep_view().take(i as int), sep),
        decreases parts.len() - i,
    {
        let s = char_to_string(sep);
        out.append(s.as_str());
        out.append(parts[i].as_str());
        proof {
            lemma_join_with_push(
                parts.deep_view().take(i as int),
                parts.deep_view()[i as int],
                sep,
            );
            assert(parts.deep_view().take(i as int).push(parts.deep_view()[i as int]) =~~=
            parts.deep_view().take(i as int + 1));
        }
        i = i + 1;
    }
    proof {
        assert(parts.deep_view().take(parts.len() as int) =~~= parts.deep_view());
    }
    out
}

/// One decimal digit as a string.
fn digit_string(d: u64) -> (r: String)
    requires
        d < 10,
    ensures
        r@ == seq![digit_char(d as nat)],
{
    let r = if d == 0 {
        String::from_str("0")
    } else if d == 1 {
        String::from_str("1")
    } else if d == 2 {
        String::from_str("2")
    } else if d == 3 {
        String::from_str("3")
    } else if d == 4 {
        String::from_str("4")
    } else if d == 5 {
        String::from_str("5")
    } else if d == 6 {
        String::from_str("6")
    } else if d == 7 {
        String::from_str("7")
    } else if d == 8 {
        String::from_str("8")
    } else {
        String::from_str("9")
    };
    proof {
        reveal_strlit("0");
        reveal_strlit("1");
        reveal_strlit("2");
        reveal_strlit("3");
        reveal_strlit("4");
        reveal_strlit("5");
        reveal_strlit("6");
        reveal_strlit("7");
        reveal_strlit("8");
        reveal_strlit("9");
        assert(r@ =~= seq![digit_char(d as nat)]);
    }
    r
}

/// The decimal rendering of `n`.
pub fn u64_to_string(n: u64) -> (r: String)
    ensures
        r@ == decimal_digits(n as nat),
    decreases n,
{
    if n < 10 {
        digit_string(n)
    } else {
        let mut r = u64_to_string(n / 10);
        let d = digit_string(n % 10);
        r.append(d.as_str());
        proof {
            assert(r@ =~= decimal_digits(n as nat));
        }
        r
    }
}

} // verus!
