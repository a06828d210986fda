//! Ordering of text keys (dates, date-times) and the sorted set of distinct
//! keys in a list.
//!
//! Text is ordered lexicographically by code point, which is the order of
//! `String`'s `Ord` (UTF-8 keeps code-point order).
use vstd::prelude::*;

verus! {

/// `a` comes strictly before `b` in lexicographic code-point order.
pub open spec fn seq_lt(a: Seq<char>, b: Seq<char>) -> bool
    decreases a.len(),
{
    if a.len() == 0 {
        b.len() > 0
    } else if b.len() == 0 {
        false
    } else if a[0] != b[0] {
        (a[0] as int) < (b[0] as int)
    } else {
        seq_lt(a.drop_first(), b.drop_first())
    }
}

/// No text comes before itself.
pub proof fn lemma_lt_irreflexive(a: Seq<char>)
    ensures
        !seq_lt(a, a),
    decreases a.len(),
{
    if a.len() > 0 {
        lemma_lt_irreflexive(a.drop_first());
    }
}

/// The order is transitive.
pub proof fn lemma_lt_transitive(a: Seq<char>, b: Seq<char>, c: Seq<char>)
    requires
        seq_lt(a, b),
        seq_lt(b, c),
    ensures
        seq_lt(a, c),
    decreases a.len(),
{
    if a.len() > 0 && b.len() > 0 && c.len() > 0 && a[0] == b[0] && b[0] == c[0] {
        lemma_lt_transitive(a.drop_first(), b.drop_first(), c.drop_first());
    }
}

/// Of two different texts one comes first.
pub proof fn lemma_lt_total(a: Seq<char>, b: Seq<char>)
    requires
        a != b,
    ensures
        seq_lt(a, b) || seq_lt(b, a),
    decreases a.len(),
{
    if a.len() == 0 {
        assert(b.len() > 0) by {
            if b.len() == 0 {
                assert(a =~= b);
            }
        }
    } else if b.len() > 0 {
        if a[0] == b[0] {
            assert(a.drop_first() != b.drop_first()) by {
                if a.drop_first() == b.drop_first() {
                    assert(a =~= seq![a[0]] + a.drop_first());
                    assert(b =~= seq![b[0]] + b.drop_first());
                }
            }
            lemma_lt_total(a.drop_first(), b.drop_first());
        } else {
        }
    }
}

/// Whether `a` comes strictly before `b`.
pub fn text_less(a: &str, b: &str) -> (r: bool)
    ensures
        r == seq_lt(a@, b@),
{
    let la = a.unicode_len();
    let lb = b.unicode_len();
    let mut i: usize = 0;
    proof {
        assert(a@.skip(0) =~= a@);
        assert(b@.skip(0) =~= b@);
    }
    while i < la && i < lb
        invariant
            la == a@.len(),
            lb == b@.len(),
            i <= la,
            i <= lb,
            seq_lt(a@, b@) == seq_lt(a@.skip(i as int), b@.skip(i as int)),
        decreases la - i,
    {
        let ca = a.get_char(i);
        let cb = b.get_char(i);
        proof {
            assert(a@.skip(i as int)[0] == ca);
            assert(b@.skip(i as int)[0] == cb);
        }
        if ca != cb {
            return (ca as u32) < (cb as u32);
        }
        proof {
            assert(a@.skip(i as int).drop_first() =~= a@.skip(i + 1));
            assert(b@.skip(i as int).drop_first() =~= b@.skip(i + 1));
        }
        i += 1;
    }
    la < lb
}

/// Every key comes strictly before the keys after it.
pub open spec fn strictly_ascending(s: Seq<String>) -> bool {
    forall|i: int, j: int| 0 <= i < j < s.len() ==> seq_lt(#[trigger] s[i]@, #[trigger] s[j]@)
}

/// `key` is the text of some element of `s`.
pub open spec fn holds_key(s: Seq<String>, key: Seq<char>) -> bool {
    exists|i: int| 0 <= i < s.len() && (#[trigger] s[i])@ == key
}

/// The distinct keys of `keys`, in ascending order.
pub fn sorted_distinct(keys: &Vec<String>) -> (r: Vec<String>)
    ensures
        strictly_ascending(r@),
        forall|i: int| 0 <= i < r@.len() ==> holds_key(keys@, #[trigger] r@[i]@),
        forall|k: int| 0 <= k < keys@.len() ==> holds_key(r@, #[trigger] keys@[k]@),
{
    let mut r: Vec<String> = Vec::new();
    let mut n: usize = 0;
    while n < keys.len()
        invariant
            n <= keys@.len(),
            strictly_ascending(r@),
            forall|i: int| 0 <= i < r@.len() ==> holds_key(keys@, #[trigger] r@[i]@),
            forall|k: int| 0 <= k < n ==> holds_key(r@, #[trigger] keys@[k]@),
        decreases keys@.len() - n,
    {
        let key = &keys[n];
        let mut p: usize = 0;
        while p < r.len() && text_less(r[p].as_str(), key.as_str())
            invariant
                p <= r@.len(),
                forall|i: int| 0 <= i < p ==> seq_lt(#[trigger] r@[i]@, key@),
            decreases r@.len() - p,
        {
            p += 1;
        }
        let found = p < r.len() && r[p] == *key;
        if found {
            proof {
                assert(r@[p as int]@ == keys@[n as int]@);
            }
        } else {
            let ghost old_r = r@;
            proof {
                if p < r@.len() {
                    lemma_lt_total(r@[p as int]@, key@);
                }
            }
            r.insert(p, key.clone());
            proof {
                assert forall|i: int, j: int| 0 <= i < j < r@.len() implies seq_lt(
                    #[trigger] r@[i]@,
                    #[trigger] r@[j]@,
                ) by {
                    if j == p {
                        assert(r@[i] == old_r[i]);
                    } else if i == p {
                        assert(r@[j] == old_r[j - 1]);
                        if j - 1 > p {
                            lemma_lt_transitive(key@, old_r[p as int]@, old_r[j - 1]@);
                        }
                    } else if i < p && j > p {
                        assert(r@[i] == old_r[i]);
                        assert(r@[j] == old_r[j - 1]);
                        if j - 1 > p {
                            lemma_lt_transitive(key@, old_r[p as int]@, old_r[j - 1]@);
                        }
                        lemma_lt_transitive(old_r[i]@, key@, old_r[j - 1]@);
                    } else if j < p {
                        assert(r@[i] == old_r[i] && r@[j] == old_r[j]);
                    } else {
                        assert(r@[i] == old_r[i - 1] && r@[j] == old_r[j - 1]);
                    }
                }
                assert forall|i: int| 0 <= i < r@.len() implies holds_key(keys@, #[trigger] r@[i]@) by {
                    if i < p {
                        assert(r@[i] == old_r[i]);
                    } else if i == p {
                        assert(keys@[n as int]@ == r@[i]@);
                    } else {
                        assert(r@[i] == old_r[i - 1]);
                    }
                }
                assert forall|k: int| 0 <= k < n + 1 implies holds_key(r@, #[trigger] keys@[k]@) by {
                    if k == n {
                        assert(r@[p as int]@ == keys@[k]@);
                    } else {
                        let i = choose|i: int| 0 <= i < old_r.len() && (#[trigger] old_r[i])@ == keys@[k]@;
                        if i < p {
                            assert(r@[i] == old_r[i]);
                        } else {
                            assert(r@[i + 1] == old_r[i]);
                        }
                    }
                }
            }
        }
        n += 1;
    }
    r
}

} // verus!
