use vstd::prelude::*;
use vstd::string::StrSliceExecFns;

verus! {

/// The two strings hold the same characters.
pub fn str_eq(a: &str, b: &str) -> (r: bool)
    ensures
        r == (a@ == b@),
{
    let n = a.unicode_len();
    if n != b.unicode_len() {
        return false;
    }
    let mut i: usize = 0;
    while i < n
        invariant
            n == a@.len(),
            n == b@.len(),
            i <= n,
            forall|j: int| 0 <= j < i ==> a@[j] == b@[j],
        decreases n - i,
    {
        if a.get_char(i) != b.get_char(i) {
            return false;
        }
        i = i + 1;
    }
    assert(a@ =~= b@);
    true
}

/// Lexicographic order of character sequences by code point (the order of
/// `str` in Rust, since UTF-8 keeps the order of code points): a proper prefix
/// comes first.
pub open spec fn char_seq_lt(a: Seq<char>, b: Seq<char>) -> bool
    decreases a.len(),
{
    if a.len() == 0 {
        b.len() > 0
    } else if b.len() == 0 {
        false
    } else if a[0] != b[0] {
        (a[0] as int) < (b[0] as int)
    } else {
        char_seq_lt(a.drop_first(), b.drop_first())
    }
}

/// The order is irreflexive.
pub proof fn lemma_char_seq_lt_irreflexive(a: Seq<char>)
    ensures
        !char_seq_lt(a, a),
    decreases a.len(),
{
    if a.len() > 0 {
        lemma_char_seq_lt_irreflexive(a.drop_first());
    }
}

/// The order is total on distinct sequences and asymmetric.
pub proof fn lemma_char_seq_lt_total(a: Seq<char>, b: Seq<char>)
    ensures
        a != b ==> char_seq_lt(a, b) || char_seq_lt(b, a),
        char_seq_lt(a, b) ==> !char_seq_lt(b, a),
    decreases a.len(),
{
    if a.len() > 0 && b.len() > 0 && a[0] == b[0] {
        lemma_char_seq_lt_total(a.drop_first(), b.drop_first());
        if a.drop_first() == b.drop_first() {
            assert(a =~= seq![a[0]] + a.drop_first());
            assert(b =~= seq![b[0]] + b.drop_first());
        }
    }
    if a.len() == 0 && b.len() == 0 {
        assert(a =~= b);
    }
}

/// The order is transitive.
pub proof fn lemma_char_seq_lt_transitive(a: Seq<char>, b: Seq<char>, c: Seq<char>)
    requires
        char_seq_lt(a, b),
        char_seq_lt(b, c),
    ensures
        char_seq_lt(a, c),
    decreases a.len(),
{
    if a.len() > 0 && b.len() > 0 && c.len() > 0 && a[0] == b[0] && b[0] == c[0] {
        lemma_char_seq_lt_transitive(a.drop_first(), b.drop_first(), c.drop_first());
    }
}

proof fn lemma_char_seq_lt_skip(a: Seq<char>, b: Seq<char>, i: int)
    requires
        0 <= i <= a.len(),
        i <= b.len(),
        forall|j: int| 0 <= j < i ==> a[j] == b[j],
    ensures
        char_seq_lt(a, b) == char_seq_lt(a.skip(i), b.skip(i)),
    decreases i,
{
    if i == 0 {
        assert(a.skip(0) =~= a);
        assert(b.skip(0) =~= b);
    } else {
        assert(a[0] == b[0]);
        lemma_char_seq_lt_skip(a.drop_first(), b.drop_first(), i - 1);
        assert(a.drop_first().skip(i - 1) =~= a.skip(i));
        assert(b.drop_first().skip(i - 1) =~= b.skip(i));
    }
}

/// The order is lexicographic: where two sequences first differ, at a position
/// inside both, the one with the smaller character there comes first, whatever
/// their lengths.
pub proof fn lemma_char_seq_lt_first_difference(a: Seq<char>, b: Seq<char>, i: int)
    requires
        0 <= i < a.len(),
        i < b.len(),
        forall|j: int| 0 <= j < i ==> a[j] == b[j],
        a[i] != b[i],
    ensures
        char_seq_lt(a, b) == ((a[i] as int) < (b[i] as int)),
        char_seq_lt(b, a) == ((b[i] as int) < (a[i] as int)),
{
    lemma_char_seq_lt_skip(a, b, i);
    lemma_char_seq_lt_skip(b, a, i);
    assert(a.skip(i)[0] == a[i]);
    assert(b.skip(i)[0] == b[i]);
}

/// A proper prefix comes before the longer sequence, and never after it.
pub proof fn lemma_char_seq_lt_proper_prefix(a: Seq<char>, b: Seq<char>)
    requires
        a.len() < b.len(),
        a == b.subrange(0, a.len() as int),
    ensures
        char_seq_lt(a, b),
        !char_seq_lt(b, a),
{
    let n = a.len() as int;
    assert forall|j: int| 0 <= j < n implies a[j] == b[j] by {
        assert(a[j] == b.subrange(0, n)[j]);
    }
    lemma_char_seq_lt_skip(a, b, n);
    lemma_char_seq_lt_skip(b, a, n);
    assert(a.skip(n).len() == 0);
}

/// `a` comes before `b` in the order of `char_seq_lt`.
pub fn str_lt(a: &str, b: &str) -> (r: bool)
    ensures
        r == char_seq_lt(a@, b@),
{
    let n = a.unicode_len();
    let m = b.unicode_len();
    let mut i: usize = 0;
    while i < n && i < m
        invariant
            n == a@.len(),
            m == b@.len(),
            i <= n,
            i <= m,
            forall|j: int| 0 <= j < i ==> a@[j] == b@[j],
        decreases n - i,
    {
        let ca = a.get_char(i);
        let cb = b.get_char(i);
        if ca != cb {
            proof {
                lemma_char_seq_lt_skip(a@, b@, i as int);
                assert(a@.skip(i as int)[0] == ca);
                assert(b@.skip(i as int)[0] == cb);
            }
            return (ca as u32) < (cb as u32);
        }
        i = i + 1;
    }
    proof {
        lemma_char_seq_lt_skip(a@, b@, i as int);
    }
    i == n && i < m
}

} // verus!
