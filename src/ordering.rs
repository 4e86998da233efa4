use vstd::prelude::*;
use crate::text::views;

verus! {

/// The order of `String` values: lexicographic by character, a proper
/// prefix first (UTF-8 byte order agrees with character order).
pub open spec fn str_lt(a: Seq<char>, b: Seq<char>) -> bool
    decreases a.len(),
{
    if a.len() == 0 {
        b.len() > 0
    } else if b.len() == 0 {
        false
    } else if a[0] != b[0] {
        a[0] < b[0]
    } else {
        str_lt(a.drop_first(), b.drop_first())
    }
}

/// No string comes before itself.
pub proof fn lemma_lt_irreflexive(a: Seq<char>)
    ensures
        !str_lt(a, a),
    decreases a.len(),
{
    if a.len() > 0 {
        lemma_lt_irreflexive(a.drop_first());
    }
}

/// The order is transitive.
pub proof fn lemma_lt_transitive(a: Seq<char>, b: Seq<char>, c: Seq<char>)
    requires
        str_lt(a, b),
        str_lt(b, c),
    ensures
        str_lt(a, c),
    decreases a.len(),
{
    if a.len() > 0 && b.len() > 0 && c.len() > 0 {
        if a[0] == b[0] && b[0] == c[0] {
            lemma_lt_transitive(a.drop_first(), b.drop_first(), c.drop_first());
        }
    }
}

/// Two different strings are ordered one way or the other.
pub proof fn lemma_lt_total(a: Seq<char>, b: Seq<char>)
    requires
        a != b,
    ensures
        str_lt(a, b) || str_lt(b, a),
    decreases a.len(),
{
    if a.len() > 0 && b.len() > 0 {
        if a[0] == b[0] {
            if a.drop_first() == b.drop_first() {
                assert(a =~= seq![a[0]] + a.drop_first());
                assert(b =~= seq![b[0]] + b.drop_first());
            }
            lemma_lt_total(a.drop_first(), b.drop_first());
        }
    } else if a.len() == 0 && b.len() == 0 {
        assert(a =~= b);
    }
}

/// Whether `a` comes before `b` in the chosen direction.
pub open spec fn before(a: Seq<char>, b: Seq<char>, ascending: bool) -> bool {
    if ascending { str_lt(a, b) } else { str_lt(b, a) }
}

/// The strings are strictly ordered in the chosen direction, so none repeats.
pub open spec fn strictly_ordered(s: Seq<Seq<char>>, ascending: bool) -> bool {
    forall|i: int, j: int| 0 <= i < j < s.len() ==> before(#[trigger] s[i], #[trigger] s[j], ascending)
}

/// Whether `a` comes before `b` in the order of `String`.
pub fn str_less(a: &str, b: &str) -> (r: bool)
    ensures
        r == str_lt(a@, b@),
{
    let n = a.unicode_len();
    let m = b.unicode_len();
    let mut i: usize = 0;
    assert(a@.subrange(0, n as int) =~= a@);
    assert(b@.subrange(0, m as int) =~= b@);
    while i < n && i < m
        invariant
            n == a@.len(),
            m == b@.len(),
            i <= n,
            i <= m,
            str_lt(a@, b@) == str_lt(a@.subrange(i as int, n as int), b@.subrange(i as int, m as int)),
        decreases n - i,
    {
        let x = a.get_char(i);
        let y = b.get_char(i);
        let ghost sa = a@.subrange(i as int, n as int);
        let ghost sb = b@.subrange(i as int, m as int);
        assert(sa[0] == x && sb[0] == y);
        if x != y {
            return x < y;
        }
        assert(sa.drop_first() =~= a@.subrange(i + 1, n as int));
        assert(sb.drop_first() =~= b@.subrange(i + 1, m as int));
        i = i + 1;
    }
    assert(a@.subrange(i as int, n as int).len() == n - i);
    i == n && i < m
}

fn before_exec(a: &str, b: &str, ascending: bool) -> (r: bool)
    ensures
        r == before(a@, b@, ascending),
{
    if ascending { str_less(a, b) } else { str_less(b, a) }
}

/// Adds `x` to a strictly ordered list unless it is already there.
pub fn insert_ordered(v: &mut Vec<String>, x: String, ascending: bool)
    requires
        strictly_ordered(views(old(v)@), ascending),
    ensures
        strictly_ordered(views(final(v)@), ascending),
        forall|y: Seq<char>| views(final(v)@).contains(y) <==> (views(old(v)@).contains(y) || y == x@),
{
    let ghost o = views(v@);
    let mut p: usize = 0;
    while p < v.len() && before_exec(v[p].as_str(), x.as_str(), ascending)
        invariant
            v@ == old(v)@,
            o == views(v@),
            p <= v@.len(),
            forall|k: int| 0 <= k < p ==> before(#[trigger] o[k], x@, ascending),
        decreases v.len() - p,
    {
        p = p + 1;
    }
    if p < v.len() && crate::text::str_eq(v[p].as_str(), x.as_str()) {
        assert(o[p as int] == x@);
        assert forall|y: Seq<char>| views(v@).contains(y) <==> (o.contains(y) || y == x@) by {
            if y == x@ {
                assert(o[p as int] == y);
            }
        }
        return;
    }
    proof {
        if p < o.len() {
            assert(o[p as int] != x@);
            assert(!before(o[p as int], x@, ascending));
            lemma_lt_total(o[p as int], x@);
        }
    }
    let ghost xv = x@;
    v.insert(p, x);
    proof {
        let nv = views(v@);
        assert(nv =~= o.insert(p as int, xv));
        assert forall|i: int, j: int| 0 <= i < j < nv.len() implies before(#[trigger] nv[i], #[trigger] nv[j], ascending) by {
            if j < p {
                assert(nv[i] == o[i] && nv[j] == o[j]);
            } else if j == p {
                assert(nv[i] == o[i] && nv[j] == xv);
            } else if i == p {
                assert(nv[j] == o[j - 1]);
                if j - 1 > p {
                    assert(before(o[p as int], o[j - 1], ascending));
                    if ascending {
                        lemma_lt_transitive(xv, o[p as int], o[j - 1]);
                    } else {
                        lemma_lt_transitive(o[j - 1], o[p as int], xv);
                    }
                }
            } else if i < p {
                assert(nv[i] == o[i] && nv[j] == o[j - 1]);
            } else {
                assert(nv[i] == o[i - 1] && nv[j] == o[j - 1]);
            }
        }
        assert forall|y: Seq<char>| nv.contains(y) <==> (o.contains(y) || y == xv) by {
            if nv.contains(y) {
                let k = choose|k: int| 0 <= k < nv.len() && nv[k] == y;
                if k < p {
                    assert(o[k] == y);
                } else if k > p {
                    assert(o[k - 1] == y);
                }
            }
            if o.contains(y) {
                let k = choose|k: int| 0 <= k < o.len() && o[k] == y;
                if k < p {
                    assert(nv[k] == y);
                } else {
                    assert(nv[k + 1] == y);
                }
            }
            if y == xv {
                assert(nv[p as int] == y);
            }
        }
    }
}

} // verus!
