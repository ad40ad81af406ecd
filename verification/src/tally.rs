//! Running totals kept in key order: the ordered maps behind the ledger's summaries.
//! A key is a sequence of integers compared lexicographically; each entry carries the
//! label it was first added with and one running sum per column.
use vstd::prelude::*;

verus! {

/// Lexicographic order on integer sequences; a proper prefix comes first.
pub open spec fn lex_lt(a: Seq<i64>, b: Seq<i64>) -> bool
    decreases a.len(),
{
    if a.len() == 0 {
        b.len() > 0
    } else if b.len() == 0 {
        false
    } else if a[0] != b[0] {
        a[0] < b[0]
    } else {
        lex_lt(a.drop_first(), b.drop_first())
    }
}

/// No key precedes itself.
pub proof fn lemma_lex_irreflexive(a: Seq<i64>)
    ensures
        !lex_lt(a, a),
    decreases a.len(),
{
    if a.len() > 0 {
        lemma_lex_irreflexive(a.drop_first());
    }
}

/// The order is transitive.
pub proof fn lemma_lex_transitive(a: Seq<i64>, b: Seq<i64>, c: Seq<i64>)
    requires
        lex_lt(a, b),
        lex_lt(b, c),
    ensures
        lex_lt(a, c),
    decreases a.len(),
{
    if a.len() > 0 && b.len() > 0 && c.len() > 0 && a[0] == b[0] && b[0] == c[0] {
        lemma_lex_transitive(a.drop_first(), b.drop_first(), c.drop_first());
    }
}

/// Two distinct keys are ordered one way or the other, and never both ways.
pub proof fn lemma_lex_total(a: Seq<i64>, b: Seq<i64>)
    ensures
        a != b ==> (lex_lt(a, b) || lex_lt(b, a)),
        !(lex_lt(a, b) && lex_lt(b, a)),
    decreases a.len(),
{
    if a.len() > 0 && b.len() > 0 {
        lemma_lex_total(a.drop_first(), b.drop_first());
        if a[0] == b[0] && a.drop_first() == b.drop_first() {
            assert(a == seq![a[0]] + a.drop_first());
            assert(b == seq![b[0]] + b.drop_first());
        }
    } else if a.len() == 0 && b.len() == 0 {
        assert(a == b);
    }
}

/// Whether `a` precedes `b`.
pub fn key_less(a: &Vec<i64>, b: &Vec<i64>) -> (r: bool)
    ensures
        r == lex_lt(a@, b@),
{
    let mut i: usize = 0;
    assert(a@.subrange(0, a@.len() as int) == a@);
    assert(b@.subrange(0, b@.len() as int) == b@);
    while i < a.len() && i < b.len()
        invariant
            0 <= i <= a@.len(),
            i <= b@.len(),
            a@.subrange(0, i as int) == b@.subrange(0, i as int),
            lex_lt(a@, b@) == lex_lt(a@.subrange(i as int, a@.len() as int), b@.subrange(
                i as int,
                b@.len() as int,
            )),
        decreases a@.len() - i,
    {
        if a[i] != b[i] {
            return a[i] < b[i];
        }
        let ghost sa = a@.subrange(i as int, a@.len() as int);
        let ghost sb = b@.subrange(i as int, b@.len() as int);
        assert(sa.drop_first() == a@.subrange(i + 1, a@.len() as int));
        assert(sb.drop_first() == b@.subrange(i + 1, b@.len() as int));
        assert(a@.subrange(0, i + 1) == a@.subrange(0, i as int).push(a@[i as int]));
        assert(b@.subrange(0, i + 1) == b@.subrange(0, i as int).push(b@[i as int]));
        i = i + 1;
    }
    i < b.len()
}

/// One entry of a tally: its key, its label and its running sums.
pub type TallyEntry<L> = (Seq<i64>, L, Seq<int>);

/// The number of entries whose key precedes `k`.
pub open spec fn count_before<L>(s: Seq<TallyEntry<L>>, k: Seq<i64>) -> int
    decreases s.len(),
{
    if s.len() == 0 {
        0
    } else {
        count_before(s.drop_last(), k) + if lex_lt(s.last().0, k) {
            1int
        } else {
            0
        }
    }
}

/// Pointwise sum of two columns of totals.
pub open spec fn add_columns(a: Seq<int>, b: Seq<int>) -> Seq<int> {
    Seq::new(a.len(), |j: int| a[j] + b[j])
}

/// Adds `delta` under key `k`: the sums of an existing entry grow, or a new entry
/// holding `delta` and `label` is placed where its key belongs.
pub open spec fn tally_add<L>(s: Seq<TallyEntry<L>>, k: Seq<i64>, label: L, delta: Seq<int>) -> Seq<
    TallyEntry<L>,
> {
    let p = count_before(s, k);
    if p < s.len() && s[p].0 == k {
        s.update(p, (k, s[p].1, add_columns(s[p].2, delta)))
    } else {
        s.insert(p, (k, label, delta))
    }
}

/// Keys strictly increase along the entries.
pub open spec fn keys_sorted<L>(s: Seq<TallyEntry<L>>) -> bool {
    forall|i: int, j: int| 0 <= i < j < s.len() ==> lex_lt(#[trigger] s[i].0, #[trigger] s[j].0)
}

/// The running totals, in key order.
pub struct Tally<L> {
    pub keys: Vec<Vec<i64>>,
    pub labels: Vec<L>,
    pub sums: Vec<Vec<i128>>,
    pub width: usize,
}

/// A column of sums, as integers.
pub open spec fn column_view(v: Seq<i128>) -> Seq<int> {
    Seq::new(v.len(), |j: int| v[j] as int)
}

impl<L> Tally<L> {
    /// The entries, in key order.
    pub open spec fn view(&self) -> Seq<TallyEntry<L>> {
        Seq::new(
            self.keys@.len(),
            |i: int| (self.keys@[i]@, self.labels@[i], column_view(self.sums@[i]@)),
        )
    }

    /// The vectors line up, keys are sorted, each entry has `width` sums, and every sum
    /// lies within `bound`.
    pub open spec fn well_formed(&self, bound: int) -> bool {
        &&& self.labels@.len() == self.keys@.len()
        &&& self.sums@.len() == self.keys@.len()
        &&& keys_sorted(self.view())
        &&& forall|i: int| 0 <= i < self.sums@.len() ==> #[trigger] self.sums@[i]@.len() == self.width
        &&& forall|i: int, j: int|
            0 <= i < self.sums@.len() && 0 <= j < self.width ==> -bound <= #[trigger] self.sums@[i]@[j]
                <= bound
    }

    /// An empty tally with `width` sums per entry.
    pub fn new(width: usize) -> (t: Self)
        ensures
            t.view() == Seq::<TallyEntry<L>>::empty(),
            t.width == width,
            t.well_formed(0),
    {
        Tally { keys: Vec::new(), labels: Vec::new(), sums: Vec::new(), width }
    }

    /// The number of entries.
    pub fn len(&self) -> (n: usize)
        ensures
            n == self.keys@.len(),
    {
        self.keys.len()
    }
}

/// With keys sorted, the entries before `i` precede `k` and the rest do not: `i` entries
/// precede `k`.
proof fn lemma_count_before<L>(s: Seq<TallyEntry<L>>, k: Seq<i64>, i: int)
    requires
        0 <= i <= s.len(),
        forall|j: int| 0 <= j < i ==> lex_lt(#[trigger] s[j].0, k),
        forall|j: int| i <= j < s.len() ==> !lex_lt(#[trigger] s[j].0, k),
    ensures
        count_before(s, k) == i,
    decreases s.len(),
{
    if s.len() > 0 {
        let t = s.drop_last();
        if i == s.len() {
            assert forall|j: int| 0 <= j < i - 1 implies lex_lt(#[trigger] t[j].0, k) by {
                assert(t[j] == s[j]);
            }
            lemma_count_before(t, k, i - 1);
        } else {
            assert forall|j: int| 0 <= j < i implies lex_lt(#[trigger] t[j].0, k) by {
                assert(t[j] == s[j]);
            }
            assert forall|j: int| i <= j < t.len() implies !lex_lt(#[trigger] t[j].0, k) by {
                assert(t[j] == s[j]);
            }
            lemma_count_before(t, k, i);
        }
    }
}

/// Adds `delta` to the sums under `key`, placing a new entry in key order.
pub fn tally_add_exec<L>(t: &mut Tally<L>, key: Vec<i64>, label: L, delta: Vec<i128>, Ghost(bound): Ghost<int>, Ghost(step): Ghost<int>)
    requires
        old(t).well_formed(bound),
        delta@.len() == old(t).width,
        0 <= bound,
        0 <= step,
        forall|j: int| 0 <= j < delta@.len() ==> -step <= #[trigger] delta@[j] <= step,
        bound + step <= i128::MAX,
    ensures
        final(t).view() == tally_add(old(t).view(), key@, label, column_view(delta@)),
        final(t).width == old(t).width,
        final(t).well_formed(bound + step),
{
    let ghost s = t.view();
    let mut i: usize = 0;
    while i < t.keys.len() && key_less(&t.keys[i], &key)
        invariant
            0 <= i <= t.keys@.len(),
            t.view() == s,
            t.well_formed(bound),
            forall|j: int| 0 <= j < i ==> lex_lt(#[trigger] s[j].0, key@),
        decreases t.keys@.len() - i,
    {
        i = i + 1;
    }
    proof {
        if i < s.len() {
            assert(!lex_lt(s[i as int].0, key@));
            assert forall|j: int| i <= j < s.len() implies !lex_lt(#[trigger] s[j].0, key@) by {
                if j > i {
                    assert(lex_lt(s[i as int].0, s[j].0));
                    if lex_lt(s[j].0, key@) {
                        lemma_lex_transitive(s[i as int].0, s[j].0, key@);
                    }
                }
            }
        }
        lemma_count_before(s, key@, i as int);
    }
    if i < t.keys.len() && !key_less(&key, &t.keys[i]) {
        proof {
            lemma_lex_total(s[i as int].0, key@);
        }
        let mut row = t.sums[i].clone();
        let mut j: usize = 0;
        while j < row.len()
            invariant
                row@.len() == t.width,
                delta@.len() == t.width,
                t.well_formed(bound),
                i < t.sums@.len(),
                0 <= j <= row@.len(),
                forall|m: int| 0 <= m < j ==> #[trigger] row@[m] == t.sums@[i as int]@[m] + delta@[m],
                forall|m: int| j <= m < row@.len() ==> #[trigger] row@[m] == t.sums@[i as int]@[m],
                0 <= step,
                forall|m: int| 0 <= m < delta@.len() ==> -step <= #[trigger] delta@[m] <= step,
                bound + step <= i128::MAX,
            decreases row@.len() - j,
        {
            assert(-bound <= t.sums@[i as int]@[j as int] <= bound);
            let v = row[j] + delta[j];
            row.set(j, v);
            j = j + 1;
        }
        let ghost old_sums = t.sums@;
        t.sums.set(i, row);
        proof {
            assert(column_view(row@) == add_columns(s[i as int].2, column_view(delta@)));
            assert(t.view() =~= s.update(i as int, (key@, s[i as int].1, column_view(row@))));
            assert forall|a: int, b: int|
                0 <= a < t.sums@.len() && 0 <= b < t.width implies -(bound + step)
                <= #[trigger] t.sums@[a]@[b] <= bound + step by {
                if a != i {
                    assert(t.sums@[a] == old_sums[a]);
                }
            }
        }
    } else {
        proof {
            if i < s.len() {
                lemma_lex_total(s[i as int].0, key@);
            }
        }
        let ghost old_sums = t.sums@;
        t.keys.insert(i, key);
        t.labels.insert(i, label);
        t.sums.insert(i, delta);
        proof {
            let n = s.insert(i as int, (key@, label, column_view(delta@)));
            assert(t.view() =~= n);
            assert forall|a: int, b: int| 0 <= a < b < n.len() implies lex_lt(
                #[trigger] n[a].0,
                #[trigger] n[b].0,
            ) by {
                if a < i && b < i {
                    assert(n[a] == s[a] && n[b] == s[b]);
                } else if a < i && b == i {
                    assert(n[a] == s[a]);
                } else if a < i && b > i {
                    assert(n[a] == s[a] && n[b] == s[b - 1]);
                    if i < s.len() {
                        assert(lex_lt(key@, s[i as int].0));
                        if i < b - 1 {
                            lemma_lex_transitive(key@, s[i as int].0, s[b - 1].0);
                        }
                        lemma_lex_transitive(s[a].0, key@, s[b - 1].0);
                    }
                } else if a == i {
                    assert(n[b] == s[b - 1]);
                    assert(lex_lt(key@, s[i as int].0));
                    if i < b - 1 {
                        lemma_lex_transitive(key@, s[i as int].0, s[b - 1].0);
                    }
                } else {
                    assert(n[a] == s[a - 1] && n[b] == s[b - 1]);
                }
            }
            assert forall|a: int| 0 <= a < t.sums@.len() implies #[trigger] t.sums@[a]@.len()
                == t.width by {
                if a < i {
                    assert(t.sums@[a] == old_sums[a]);
                } else if a > i {
                    assert(t.sums@[a] == old_sums[a - 1]);
                }
            }
            assert forall|a: int, b: int|
                0 <= a < t.sums@.len() && 0 <= b < t.width implies -(bound + step)
                <= #[trigger] t.sums@[a]@[b] <= bound + step by {
                if a < i {
                    assert(t.sums@[a] == old_sums[a]);
                } else if a > i {
                    assert(t.sums@[a] == old_sums[a - 1]);
                } else {
                    assert(t.sums@[a] == delta);
                }
            }
        }
    }
}

/// A tally within a bound is within any larger bound.
pub proof fn lemma_well_formed_weaken<L>(t: &Tally<L>, small: int, large: int)
    requires
        t.well_formed(small),
        small <= large,
    ensures
        t.well_formed(large),
{
}

} // verus!
