use vstd::prelude::*;

verus! {

/// `a` sorts strictly before `b`: at the first position where they differ `a` has the
/// smaller character, or `a` is a proper prefix of `b`. This is the order of `str`.
pub open spec fn text_lt(a: Seq<char>, b: Seq<char>) -> bool {
    exists|i: int|
        #![trigger a.take(i), b.take(i)]
        0 <= i <= a.len() && i <= b.len() && a.take(i) == b.take(i) && (
        (i < a.len() && i < b.len() && (a[i] as u32) < (b[i] as u32)) || (i == a.len() && i
            < b.len()))
}

proof fn lemma_common_prefix(a: Seq<char>, b: Seq<char>, i: int, j: int)
    requires
        0 <= j <= i <= a.len(),
        i <= b.len(),
        a.take(i) == b.take(i),
    ensures
        a.take(j) == b.take(j),
        forall|k: int| 0 <= k < i ==> a[k] == b[k],
{
    assert forall|k: int| 0 <= k < i implies a[k] == b[k] by {
        assert(a.take(i)[k] == a[k]);
        assert(b.take(i)[k] == b[k]);
        assert(a.take(i)[k] == b.take(i)[k]);
    }
    assert(a.take(j) =~= b.take(j));
}

pub proof fn lemma_text_lt_asymmetric(a: Seq<char>, b: Seq<char>)
    requires
        text_lt(a, b),
    ensures
        !text_lt(b, a),
        a != b,
{
    let i = choose|i: int|
        #![trigger a.take(i), b.take(i)]
        0 <= i <= a.len() && i <= b.len() && a.take(i) == b.take(i) && (
        (i < a.len() && i < b.len() && (a[i] as u32) < (b[i] as u32)) || (i == a.len() && i
            < b.len()));
    if text_lt(b, a) {
        let j = choose|j: int|
            #![trigger b.take(j), a.take(j)]
            0 <= j <= b.len() && j <= a.len() && b.take(j) == a.take(j) && (
            (j < b.len() && j < a.len() && (b[j] as u32) < (a[j] as u32)) || (j == b.len() && j
                < a.len()));
        if i < j {
            lemma_common_prefix(a, b, j, i);
        } else if j < i {
            lemma_common_prefix(a, b, i, j);
        }
    }
    if a == b {
        if i < a.len() {
        }
    }
}

pub proof fn lemma_text_lt_transitive(a: Seq<char>, b: Seq<char>, c: Seq<char>)
    requires
        text_lt(a, b),
        text_lt(b, c),
    ensures
        text_lt(a, c),
{
    let i = choose|i: int|
        #![trigger a.take(i), b.take(i)]
        0 <= i <= a.len() && i <= b.len() && a.take(i) == b.take(i) && (
        (i < a.len() && i < b.len() && (a[i] as u32) < (b[i] as u32)) || (i == a.len() && i
            < b.len()));
    let j = choose|j: int|
        #![trigger b.take(j), c.take(j)]
        0 <= j <= b.len() && j <= c.len() && b.take(j) == c.take(j) && (
        (j < b.len() && j < c.len() && (b[j] as u32) < (c[j] as u32)) || (j == b.len() && j
            < c.len()));
    let k = if i < j {
        i
    } else {
        j
    };
    lemma_common_prefix(a, b, i, k);
    lemma_common_prefix(b, c, j, k);
    assert(a.take(k) =~= c.take(k));
    if i < j {
        lemma_common_prefix(b, c, j, i);
        assert(0 <= k <= a.len() && k <= c.len() && a.take(k) == c.take(k));
    } else if j < i {
        lemma_common_prefix(a, b, i, j);
        assert(j < a.len());
    } else {
    }
}

/// The first position from `i` on, below `n`, where `a` and `b` differ, or `n`.
proof fn lemma_first_mismatch(a: Seq<char>, b: Seq<char>, i: int, n: int) -> (m: int)
    requires
        0 <= i <= n,
        n <= a.len(),
        n <= b.len(),
        forall|k: int| 0 <= k < i ==> a[k] == b[k],
    ensures
        i <= m <= n,
        forall|k: int| 0 <= k < m ==> a[k] == b[k],
        m < n ==> a[m] != b[m],
    decreases n - i,
{
    if i < n && a[i] == b[i] {
        lemma_first_mismatch(a, b, i + 1, n)
    } else {
        i
    }
}

pub proof fn lemma_text_lt_total(a: Seq<char>, b: Seq<char>)
    requires
        a != b,
    ensures
        text_lt(a, b) || text_lt(b, a),
{
    let n = if a.len() < b.len() {
        a.len() as int
    } else {
        b.len() as int
    };
    let i = lemma_first_mismatch(a, b, 0, n);
    assert(a.take(i) =~= b.take(i));
    if i < n {
        if (a[i] as u32) < (b[i] as u32) {
            assert(text_lt(a, b));
        } else {
            assert((b[i] as u32) < (a[i] as u32)) by {
                assert(a[i] != b[i]);
                vstd::utf8::char_u32_cast(a[i], a[i] as u32);
                vstd::utf8::char_u32_cast(b[i], b[i] as u32);
            }
            assert(b.take(i) == a.take(i));
            assert(text_lt(b, a));
        }
    } else if a.len() < b.len() {
        assert(text_lt(a, b));
    } else if b.len() < a.len() {
        assert(b.take(i) == a.take(i));
        assert(text_lt(b, a));
    } else {
        assert(a =~= b);
    }
}

/// Compares two texts in `str` order.
pub fn text_less(a: &Vec<char>, b: &Vec<char>) -> (less: bool)
    ensures
        less == text_lt(a@, b@),
{
    let n = if a.len() < b.len() {
        a.len()
    } else {
        b.len()
    };
    let mut i: usize = 0;
    while i < n && a[i] == b[i]
        invariant
            i <= n,
            n <= a@.len(),
            n <= b@.len(),
            n == a@.len() || n == b@.len(),
            forall|k: int| 0 <= k < i ==> a@[k] == b@[k],
        decreases n - i,
    {
        i += 1;
    }
    assert(a@.take(i as int) =~= b@.take(i as int));
    if i < n {
        let less = (a[i] as u32) < (b[i] as u32);
        proof {
            if less {
                assert(text_lt(a@, b@));
            } else {
                if text_lt(a@, b@) {
                    let j = choose|j: int|
                        #![trigger a@.take(j), b@.take(j)]
                        0 <= j <= a@.len() && j <= b@.len() && a@.take(j) == b@.take(j) && (
                        (j < a@.len() && j < b@.len() && (a@[j] as u32) < (b@[j] as u32)) || (j
                            == a@.len() && j < b@.len()));
                    if j < i {
                        lemma_common_prefix(a@, b@, i as int, j);
                        assert(a@[j] == b@[j]);
                    } else if j > i {
                        lemma_common_prefix(a@, b@, j, i as int);
                    }
                }
            }
        }
        less
    } else {
        let less = a.len() < b.len();
        proof {
            if less {
                assert(text_lt(a@, b@));
            } else if text_lt(a@, b@) {
                let j = choose|j: int|
                    #![trigger a@.take(j), b@.take(j)]
                    0 <= j <= a@.len() && j <= b@.len() && a@.take(j) == b@.take(j) && (
                    (j < a@.len() && j < b@.len() && (a@[j] as u32) < (b@[j] as u32)) || (j
                        == a@.len() && j < b@.len()));
                if j < i {
                    lemma_common_prefix(a@, b@, i as int, j);
                    assert(a@[j] == b@[j]);
                }
            }
        }
        less
    }
}

} // verus!
