//! Character-level helpers: building strings, decimal rendering and the
//! lexicographic order that `String` comparison uses.
use vstd::prelude::*;

verus! {

/// Appends one character to a string.
///
/// Trusted: calls `String::push`, which std documents as appending the given
/// `char` to the end of the string.
#[verifier::external_body]
fn push_char(s: &mut String, c: char)
    ensures
        final(s)@ == old(s)@.push(c),
{
    s.push(c);
}

/// Whether two strings hold the same characters.
pub fn str_eq(a: &str, b: &str) -> (r: bool)
    ensures
        r == (a@ == b@),
{
    let x = a.to_owned();
    let y = b.to_owned();
    x == y
}

/// The characters of `s`, in order.
pub fn chars_of(s: &str) -> (v: Vec<char>)
    ensures
        v@ == s@,
{
    let mut v: Vec<char> = Vec::new();
    for c in it: s.chars()
        invariant
            v@ == it.seq().take(it.index()),
    {
        v.push(c);
    }
    v
}


/// `a` comes no later than `b` in the order of `String` comparison: the
/// lexicographic order of their characters by code point (which is the order
/// of their UTF-8 bytes).
pub open spec fn lex_le(a: Seq<char>, b: Seq<char>) -> bool
    decreases a.len(),
{
    if a.len() == 0 {
        true
    } else if b.len() == 0 {
        false
    } else if a[0] != b[0] {
        (a[0] as int) < (b[0] as int)
    } else {
        lex_le(a.drop_first(), b.drop_first())
    }
}

/// `a` comes strictly before `b`.
pub open spec fn lex_lt(a: Seq<char>, b: Seq<char>) -> bool {
    lex_le(a, b) && a != b
}

/// Every string comes no later than itself.
pub proof fn lemma_lex_le_reflexive(a: Seq<char>)
    ensures
        lex_le(a, a),
    decreases a.len(),
{
    if a.len() > 0 {
        lemma_lex_le_reflexive(a.drop_first());
    }
}

/// Any two strings are ordered one way or the other.
pub proof fn lemma_lex_le_total(a: Seq<char>, b: Seq<char>)
    ensures
        lex_le(a, b) || lex_le(b, a),
    decreases a.len(),
{
    if a.len() > 0 && b.len() > 0 && a[0] == b[0] {
        lemma_lex_le_total(a.drop_first(), b.drop_first());
    }
}

/// Two strings each no later than the other are equal.
pub proof fn lemma_lex_le_antisymmetric(a: Seq<char>, b: Seq<char>)
    requires
        lex_le(a, b),
        lex_le(b, a),
    ensures
        a == b,
    decreases a.len(),
{
    if a.len() > 0 && b.len() > 0 {
        lemma_lex_le_antisymmetric(a.drop_first(), b.drop_first());
        assert(a =~= seq![a[0]] + a.drop_first());
        assert(b =~= seq![b[0]] + b.drop_first());
    } else {
        assert(a =~= b);
    }
}

/// The order is transitive.
pub proof fn lemma_lex_le_transitive(a: Seq<char>, b: Seq<char>, c: Seq<char>)
    requires
        lex_le(a, b),
        lex_le(b, c),
    ensures
        lex_le(a, c),
    decreases a.len(),
{
    if a.len() > 0 && b.len() > 0 && c.len() > 0 && a[0] == b[0] && b[0] == c[0] {
        lemma_lex_le_transitive(a.drop_first(), b.drop_first(), c.drop_first());
    }
}

/// Decides `lex_le` on two character vectors.
fn chars_le(a: &Vec<char>, b: &Vec<char>) -> (r: bool)
    ensures
        r == lex_le(a@, b@),
{
    let mut i: usize = 0;
    assert(a@.skip(0) =~= a@);
    assert(b@.skip(0) =~= b@);
    while i < a.len() && i < b.len()
        invariant
            i <= a.len(),
            i <= b.len(),
            lex_le(a@, b@) == lex_le(a@.skip(i as int), b@.skip(i as int)),
        decreases a.len() - i,
    {
        let x = a[i];
        let y = b[i];
        if x != y {
            assert(a@.skip(i as int)[0] == x);
            assert(b@.skip(i as int)[0] == y);
            return x < y;
        }
        assert(a@.skip(i as int).drop_first() =~= a@.skip(i + 1));
        assert(b@.skip(i as int).drop_first() =~= b@.skip(i + 1));
        i = i + 1;
    }
    i == a.len()
}

/// Whether `a` comes no later than `b` in the order of `String` comparison.
pub fn str_le(a: &str, b: &str) -> (r: bool)
    ensures
        r == lex_le(a@, b@),
{
    let x = chars_of(a);
    let y = chars_of(b);
    chars_le(&x, &y)
}

/// The views of a sequence of strings.
pub open spec fn texts(s: Seq<String>) -> Seq<Seq<char>> {
    s.map_values(|x: String| x@)
}

/// The strings are in non-decreasing order.
pub open spec fn sorted_texts(s: Seq<String>) -> bool {
    forall|i: int, j: int| 0 <= i < j < s.len() ==> lex_le(#[trigger] s[i]@, #[trigger] s[j]@)
}

/// The character sequences are in non-decreasing order.
pub open spec fn sorted_seqs(s: Seq<Seq<char>>) -> bool {
    forall|i: int, j: int| 0 <= i < j < s.len() ==> lex_le(#[trigger] s[i], #[trigger] s[j])
}

/// Sorting has one outcome: two sorted sequences that hold the same
/// strings, each as often, are equal.
pub proof fn law_sorted_arrangement_is_unique(a: Seq<Seq<char>>, b: Seq<Seq<char>>)
    requires
        sorted_seqs(a),
        sorted_seqs(b),
        a.to_multiset() == b.to_multiset(),
    ensures
        a == b,
    decreases a.len(),
{
    broadcast use vstd::seq_lib::group_to_multiset_ensures;
    vstd::seq_lib::to_multiset_len(a);
    vstd::seq_lib::to_multiset_len(b);
    if a.len() == 0 {
        assert(a =~= b);
    } else {
        vstd::seq_lib::to_multiset_contains(b, a[0]);
        vstd::seq_lib::to_multiset_contains(a, a[0]);
        vstd::seq_lib::to_multiset_contains(a, b[0]);
        vstd::seq_lib::to_multiset_contains(b, b[0]);
        assert(a.contains(a[0]));
        assert(b.contains(b[0]));
        let k = choose|k: int| 0 <= k < b.len() && b[k] == a[0];
        let l = choose|l: int| 0 <= l < a.len() && a[l] == b[0];
        if k > 0 {
            assert(lex_le(b[0], b[k]));
        } else {
            lemma_lex_le_reflexive(b[0]);
        }
        if l > 0 {
            assert(lex_le(a[0], a[l]));
        } else {
            lemma_lex_le_reflexive(a[0]);
        }
        lemma_lex_le_antisymmetric(a[0], b[0]);
        vstd::seq_lib::to_multiset_remove(a, 0);
        vstd::seq_lib::to_multiset_remove(b, 0);
        assert(a.remove(0) =~= a.drop_first());
        assert(b.remove(0) =~= b.drop_first());
        assert(sorted_seqs(a.drop_first())) by {
            assert forall|i: int, j: int| 0 <= i < j < a.drop_first().len() implies lex_le(
                #[trigger] a.drop_first()[i],
                #[trigger] a.drop_first()[j],
            ) by {
                assert(lex_le(a[i + 1], a[j + 1]));
            }
        }
        assert(sorted_seqs(b.drop_first())) by {
            assert forall|i: int, j: int| 0 <= i < j < b.drop_first().len() implies lex_le(
                #[trigger] b.drop_first()[i],
                #[trigger] b.drop_first()[j],
            ) by {
                assert(lex_le(b[i + 1], b[j + 1]));
            }
        }
        law_sorted_arrangement_is_unique(a.drop_first(), b.drop_first());
        assert forall|i: int| 0 <= i < a.len() implies a[i] == b[i] by {
            if i > 0 {
                assert(a[i] == a.drop_first()[i - 1]);
                assert(b[i] == b.drop_first()[i - 1]);
            }
        }
        assert(a =~= b);
    }
}

/// Sorts strings into the order of `String` comparison. The result holds the
/// same strings, each as often as before.
pub fn sort_strings(v: Vec<String>) -> (r: Vec<String>)
    ensures
        r@.to_multiset() == v@.to_multiset(),
        texts(r@).to_multiset() == texts(v@).to_multiset(),
        sorted_texts(r@),
        sorted_seqs(texts(r@)),
{
    broadcast use vstd::seq_lib::group_to_multiset_ensures;
    let mut r: Vec<String> = Vec::new();
    let n = v.len();
    for k in 0..n
        invariant
            n == v.len(),
            r@.to_multiset() == v@.take(k as int).to_multiset(),
            texts(r@).to_multiset() == texts(v@.take(k as int)).to_multiset(),
            sorted_texts(r@),
    {
        let x = v[k].clone();
        let mut p: usize = 0;
        while p < r.len() && str_le(r[p].as_str(), x.as_str())
            invariant
                p <= r.len(),
                forall|i: int| 0 <= i < p ==> lex_le(#[trigger] r@[i]@, x@),
            decreases r.len() - p,
        {
            p = p + 1;
        }
        proof {
            if p < r.len() {
                assert(!lex_le(r@[p as int]@, x@));
                lemma_lex_le_total(r@[p as int]@, x@);
                assert forall|j: int| p <= j < r@.len() implies lex_le(x@, #[trigger] r@[j]@) by {
                    if j > p {
                        lemma_lex_le_transitive(x@, r@[p as int]@, r@[j]@);
                    }
                }
            }
        }
        let ghost old_r = r@;
        r.insert(p, x);
        proof {
            vstd::seq_lib::to_multiset_insert(old_r, p as int, x);
            vstd::seq_lib::to_multiset_insert(texts(old_r), p as int, x@);
            assert(texts(r@) =~= texts(old_r).insert(p as int, x@));
            assert(texts(v@.take(k + 1)) =~= texts(v@.take(k as int)).push(v@[k as int]@));
            vstd::seq_lib::to_multiset_build(texts(v@.take(k as int)), v@[k as int]@);
            assert(v@.take(k + 1) =~= v@.take(k as int).push(v@[k as int]));
            vstd::seq_lib::to_multiset_build(v@.take(k as int), v@[k as int]);
            assert forall|i: int, j: int| 0 <= i < j < r@.len() implies lex_le(
                #[trigger] r@[i]@,
                #[trigger] r@[j]@,
            ) by {
                if j < p {
                } else if j == p {
                } else if i < p {
                    lemma_lex_le_transitive(r@[i]@, x@, r@[j]@);
                } else if i == p {
                } else {
                    assert(r@[i] == old_r[i - 1]);
                    assert(r@[j] == old_r[j - 1]);
                }
            }
        }
    }
    assert(v@.take(n as int) =~= v@);
    assert(sorted_seqs(texts(r@))) by {
        assert forall|i: int, j: int| 0 <= i < j < texts(r@).len() implies lex_le(
            #[trigger] texts(r@)[i],
            #[trigger] texts(r@)[j],
        ) by {
            assert(lex_le(r@[i]@, r@[j]@));
        }
    }
    r
}


/// The decimal digit for `d < 10`.
pub open spec fn digit_char(d: nat) -> char {
    if d == 0 { '0' }
    else if d == 1 { '1' }
    else if d == 2 { '2' }
    else if d == 3 { '3' }
    else if d == 4 { '4' }
    else if d == 5 { '5' }
    else if d == 6 { '6' }
    else if d == 7 { '7' }
    else if d == 8 { '8' }
    else { '9' }
}

/// The decimal rendering of `n`, without sign or leading zeros (as `{}`
/// formats an unsigned integer).
pub open spec fn decimal(n: nat) -> Seq<char>
    decreases n,
{
    if n < 10 {
        seq![digit_char(n)]
    } else {
        decimal(n / 10).push(digit_char(n % 10))
    }
}

fn digit(d: usize) -> (c: char)
    requires
        d < 10,
    ensures
        c == digit_char(d as nat),
{
    if d == 0 { '0' }
    else if d == 1 { '1' }
    else if d == 2 { '2' }
    else if d == 3 { '3' }
    else if d == 4 { '4' }
    else if d == 5 { '5' }
    else if d == 6 { '6' }
    else if d == 7 { '7' }
    else if d == 8 { '8' }
    else { '9' }
}

/// Appends the decimal rendering of `n`.
pub fn push_decimal(out: &mut String, n: usize)
    ensures
        final(out)@ == old(out)@ + decimal(n as nat),
    decreases n,
{
    if n >= 10 {
        push_decimal(out, n / 10);
    }
    push_char(out, digit(n % 10));
    assert(old(out)@ + decimal(n as nat) =~= (old(out)@ + if n >= 10 { decimal((n / 10) as nat) } else { Seq::empty() }).push(digit_char((n % 10) as nat)));
}

} // verus!
