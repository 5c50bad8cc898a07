//! Lexicographic order of names, and the lists that it gives rise to.
use vstd::prelude::*;

verus! {

/// What names are made of: values that an integer tells apart and orders.
pub trait Symbol: Copy {
    /// The place of the symbol in the order of all symbols.
    spec fn rank(self) -> int;

    /// Symbols of one rank are the same symbol.
    proof fn rank_tells_apart(a: Self, b: Self)
        ensures
            a.rank() == b.rank() ==> a == b,
    ;

    /// Whether `self` comes before `other`.
    fn below(self, other: Self) -> (r: bool)
        ensures
            r == (self.rank() < other.rank()),
    ;
}

impl Symbol for char {
    open spec fn rank(self) -> int {
        self as int
    }

    proof fn rank_tells_apart(a: Self, b: Self) {
    }

    fn below(self, other: Self) -> (r: bool) {
        self < other
    }
}

impl Symbol for u8 {
    open spec fn rank(self) -> int {
        self as int
    }

    proof fn rank_tells_apart(a: Self, b: Self) {
    }

    fn below(self, other: Self) -> (r: bool) {
        self < other
    }
}

/// `a` comes before `b` in lexicographic order.
pub open spec fn precedes<T: Symbol>(a: Seq<T>, b: Seq<T>) -> bool
    decreases a.len(),
{
    if b.len() == 0 {
        false
    } else if a.len() == 0 {
        true
    } else if a[0] == b[0] {
        precedes(a.skip(1), b.skip(1))
    } else {
        a[0].rank() < b[0].rank()
    }
}

/// No sequence comes before itself.
pub proof fn lemma_precedes_irreflexive<T: Symbol>(a: Seq<T>)
    ensures
        !precedes(a, a),
    decreases a.len(),
{
    if a.len() > 0 {
        lemma_precedes_irreflexive(a.skip(1));
    }
}

/// Of two different sequences, one comes before the other.
pub proof fn lemma_precedes_total<T: Symbol>(a: Seq<T>, b: Seq<T>)
    ensures
        a == b || precedes(a, b) || precedes(b, a),
    decreases a.len(),
{
    if a.len() == 0 || b.len() == 0 {
        if a.len() == 0 && b.len() == 0 {
            assert(a =~= b);
        }
    } else if a[0] == b[0] {
        lemma_precedes_total(a.skip(1), b.skip(1));
        if a.skip(1) == b.skip(1) {
            assert(a =~= seq![a[0]] + a.skip(1));
            assert(b =~= seq![b[0]] + b.skip(1));
        }
    } else {
        T::rank_tells_apart(a[0], b[0]);
    }
}

/// What comes before `b`, where `b` comes before `c`, comes before `c`.
pub proof fn lemma_precedes_transitive<T: Symbol>(a: Seq<T>, b: Seq<T>, c: Seq<T>)
    requires
        precedes(a, b),
        precedes(b, c),
    ensures
        precedes(a, c),
    decreases a.len(),
{
    if a.len() > 0 {
        T::rank_tells_apart(a[0], c[0]);
        if a[0] == b[0] && b[0] == c[0] {
            lemma_precedes_transitive(a.skip(1), b.skip(1), c.skip(1));
        }
    }
}

/// Of two sequences, at most one comes before the other.
pub proof fn lemma_precedes_one_way<T: Symbol>(a: Seq<T>, b: Seq<T>)
    requires
        precedes(a, b),
    ensures
        !precedes(b, a),
        a != b,
{
    if precedes(b, a) {
        lemma_precedes_transitive(a, b, a);
    }
    lemma_precedes_irreflexive(a);
}

/// Whether `a` comes before `b`.
pub fn is_before<T: Symbol>(a: &[T], b: &[T]) -> (r: bool)
    ensures
        r == precedes(a@, b@),
{
    let mut i: usize = 0;
    assert(a@.skip(0) == a@);
    assert(b@.skip(0) == b@);
    let a_len: usize = a.len();
    let b_len: usize = b.len();
    loop
        invariant
            a_len == a@.len(),
            b_len == b@.len(),
            i <= a_len,
            i <= b_len,
            precedes(a@, b@) == precedes(a@.skip(i as int), b@.skip(i as int)),
        decreases a_len - i,
    {
        if i == b_len {
            return false;
        }
        if i == a_len {
            return true;
        }
        let x = a[i];
        let y = b[i];
        assert(x == a@.skip(i as int)[0] && y == b@.skip(i as int)[0]);
        if x.below(y) {
            return true;
        }
        if y.below(x) {
            return false;
        }
        proof {
            T::rank_tells_apart(x, y);
            assert(a@.skip(i as int).skip(1) == a@.skip(i + 1));
            assert(b@.skip(i as int).skip(1) == b@.skip(i + 1));
        }
        i += 1;
    }
}

/// No key comes before one that stands earlier.
pub open spec fn in_order<T: Symbol>(keys: Seq<Seq<T>>) -> bool {
    forall|i: int, j: int|
        #![trigger keys[i], keys[j]]
        0 <= i < j < keys.len() ==> !precedes(keys[j], keys[i])
}

/// Each key comes before all that stand later.
pub open spec fn ascending<T: Symbol>(keys: Seq<Seq<T>>) -> bool {
    forall|i: int, j: int|
        #![trigger keys[i], keys[j]]
        0 <= i < j < keys.len() ==> precedes(keys[i], keys[j])
}

/// A sequence comes before another if they agree up to a place where the first ends or has the
/// lower symbol.
pub proof fn lemma_precedes_at<T: Symbol>(a: Seq<T>, b: Seq<T>, k: int)
    requires
        0 <= k <= a.len(),
        k < b.len(),
        forall|j: int| 0 <= j < k ==> a[j] == b[j],
        k == a.len() || a[k].rank() < b[k].rank(),
    ensures
        precedes(a, b),
    decreases k,
{
    if k > 0 {
        assert(a[0] == b[0]);
        assert forall|j: int| 0 <= j < k - 1 implies a.skip(1)[j] == b.skip(1)[j] by {
            assert(a[j + 1] == b[j + 1]);
        }
        lemma_precedes_at(a.skip(1), b.skip(1), k - 1);
    }
}

/// A list is ascending if each key comes before the next.
pub proof fn lemma_steps_ascend<T: Symbol>(keys: Seq<Seq<T>>)
    requires
        forall|i: int| 0 <= i < keys.len() - 1 ==> precedes(#[trigger] keys[i], keys[i + 1]),
    ensures
        ascending(keys),
    decreases keys.len(),
{
    if keys.len() > 1 {
        let front = keys.drop_last();
        let n = front.len() as int;
        assert forall|i: int| 0 <= i < front.len() - 1 implies precedes(
            #[trigger] front[i],
            front[i + 1],
        ) by {
            assert(precedes(keys[i], keys[i + 1]));
        }
        lemma_steps_ascend(front);
        assert forall|i: int, j: int|
            #![trigger keys[i], keys[j]]
            0 <= i < j < keys.len() implies precedes(keys[i], keys[j]) by {
            assert(precedes(keys[n - 1], keys[n - 1 + 1]));
            if j < n {
                assert(precedes(front[i], front[j]));
            } else if i < n - 1 {
                assert(precedes(front[i], front[n - 1]));
                lemma_precedes_transitive(keys[i], keys[n - 1], keys[n]);
            }
        }
    }
}

/// The item `x` put behind the last item of `s` whose key does not come after its own.
pub open spec fn put_in<M, T: Symbol>(s: Seq<M>, key: spec_fn(M) -> Seq<T>, x: M) -> Seq<M>
    decreases s.len(),
{
    if s.len() > 0 && precedes(key(x), key(s.last())) {
        put_in(s.drop_last(), key, x).push(s.last())
    } else {
        s.push(x)
    }
}

/// The items of `s` sorted by their keys, items of one key in the order in which they stand.
pub open spec fn sorted<M, T: Symbol>(s: Seq<M>, key: spec_fn(M) -> Seq<T>) -> Seq<M>
    decreases s.len(),
{
    if s.len() == 0 {
        s
    } else {
        put_in(sorted(s.drop_last(), key), key, s.last())
    }
}

/// The keys of the items.
pub open spec fn keys_of<M, T: Symbol>(s: Seq<M>, key: spec_fn(M) -> Seq<T>) -> Seq<Seq<T>> {
    s.map_values(key)
}

/// Putting an item in keeps the order and adds that item alone.
pub proof fn lemma_put_in<M, T: Symbol>(s: Seq<M>, key: spec_fn(M) -> Seq<T>, x: M)
    requires
        in_order(keys_of(s, key)),
    ensures
        in_order(keys_of(put_in(s, key, x), key)),
        put_in(s, key, x).to_multiset() == s.to_multiset().insert(x),
        put_in(s, key, x).len() == s.len() + 1,
        forall|i: int|
            0 <= i <= s.len() ==> (put_in(s, key, x)[i] == x || s.contains(
                #[trigger] put_in(s, key, x)[i],
            )),
    decreases s.len(),
{
    broadcast use vstd::seq_lib::group_to_multiset_ensures;

    let r = put_in(s, key, x);
    let keys = keys_of(s, key);
    if s.len() > 0 && precedes(key(x), key(s.last())) {
        let head = s.drop_last();
        assert forall|i: int, j: int|
            #![trigger keys_of(head, key)[i], keys_of(head, key)[j]]
            0 <= i < j < head.len() implies !precedes(
            keys_of(head, key)[j],
            keys_of(head, key)[i],
        ) by {
            assert(keys[i] == keys_of(head, key)[i] && keys[j] == keys_of(head, key)[j]);
        }
        lemma_put_in(head, key, x);
        let q = put_in(head, key, x);
        assert(r == q.push(s.last()));
        assert(s == head.push(s.last()));
        assert forall|i: int| 0 <= i <= s.len() implies (r[i] == x || s.contains(
            #[trigger] r[i],
        )) by {
            if i < q.len() {
                assert(q[i] == r[i]);
                if q[i] != x {
                    let k = choose|k: int| 0 <= k < head.len() && head[k] == q[i];
                    assert(s[k] == r[i]);
                }
            } else {
                assert(s[s.len() - 1] == r[i]);
            }
        }
        assert forall|i: int, j: int|
            #![trigger keys_of(r, key)[i], keys_of(r, key)[j]]
            0 <= i < j < r.len() implies !precedes(keys_of(r, key)[j], keys_of(r, key)[i]) by {
            if j < q.len() {
                assert(keys_of(q, key)[i] == keys_of(r, key)[i]);
                assert(keys_of(q, key)[j] == keys_of(r, key)[j]);
            } else {
                assert(q[i] == r[i]);
                if q[i] == x {
                    lemma_precedes_one_way(key(x), key(s.last()));
                } else {
                    let k = choose|k: int| 0 <= k < head.len() && head[k] == q[i];
                    assert(keys[k] == key(q[i]));
                    assert(keys[s.len() - 1] == key(s.last()));
                }
            }
        }
        assert(r.to_multiset() =~= s.to_multiset().insert(x));
    } else {
        assert(r == s.push(x));
        assert forall|i: int, j: int|
            #![trigger keys_of(r, key)[i], keys_of(r, key)[j]]
            0 <= i < j < r.len() implies !precedes(keys_of(r, key)[j], keys_of(r, key)[i]) by {
            if j < s.len() {
                assert(keys[i] == keys_of(r, key)[i] && keys[j] == keys_of(r, key)[j]);
            } else if precedes(key(x), keys_of(r, key)[i]) {
                assert(keys[i] == keys_of(r, key)[i]);
                if i < s.len() - 1 {
                    assert(keys[s.len() - 1] == key(s.last()));
                    lemma_precedes_total(key(s.last()), keys[i]);
                    if precedes(keys[i], key(s.last())) {
                        lemma_precedes_transitive(key(x), keys[i], key(s.last()));
                    }
                }
            }
        }
        assert forall|i: int| 0 <= i <= s.len() implies (r[i] == x || s.contains(
            #[trigger] r[i],
        )) by {
            if i < s.len() {
                assert(s[i] == r[i]);
            }
        }
    }
}

/// Sorting gives the same items, in the order of their keys.
pub proof fn lemma_sorted<M, T: Symbol>(s: Seq<M>, key: spec_fn(M) -> Seq<T>)
    ensures
        in_order(keys_of(sorted(s, key), key)),
        sorted(s, key).to_multiset() == s.to_multiset(),
        sorted(s, key).len() == s.len(),
    decreases s.len(),
{
    broadcast use vstd::seq_lib::group_to_multiset_ensures;

    if s.len() > 0 {
        lemma_sorted(s.drop_last(), key);
        lemma_put_in(sorted(s.drop_last(), key), key, s.last());
        assert(s == s.drop_last().push(s.last()));
        assert(sorted(s, key).to_multiset() =~= s.to_multiset());
    }
}


/// Items that a sequence of symbols names.
pub trait Keyed<S: Symbol>: Sized {
    /// The name of the item.
    spec fn key(&self) -> Seq<S>;

    /// The name of the item.
    fn symbols(&self) -> (r: Vec<S>)
        ensures
            r@ == self.key(),
    ;
}

/// The name of an item, as a function.
pub open spec fn key_fn<M: Keyed<S>, S: Symbol>() -> spec_fn(M) -> Seq<S> {
    |m: M| m.key()
}

/// The names of the items.
pub open spec fn names<M: Keyed<S>, S: Symbol>(s: Seq<M>) -> Seq<Seq<S>> {
    keys_of(s, key_fn::<M, S>())
}

/// Putting an item in is to insert it at the one place that keeps the order.
proof fn lemma_put_in_at<M, T: Symbol>(s: Seq<M>, key: spec_fn(M) -> Seq<T>, x: M, at: int)
    requires
        0 <= at <= s.len(),
        forall|k: int| at <= k < s.len() ==> precedes(key(x), key(#[trigger] s[k])),
        at > 0 ==> !precedes(key(x), key(s[at - 1])),
    ensures
        put_in(s, key, x) == s.insert(at, x),
    decreases s.len(),
{
    if at < s.len() {
        let head = s.drop_last();
        assert(precedes(key(x), key(s[s.len() - 1])));
        lemma_put_in_at(head, key, x, at);
        assert(head.insert(at, x).push(s.last()) =~= s.insert(at, x));
    } else {
        assert(s.insert(at, x) =~= s.push(x));
    }
}

/// The items sorted by their names, items of one name in the order in which they stand.
pub fn sort_by_name<M: Keyed<S>, S: Symbol>(items: Vec<M>) -> (r: Vec<M>)
    ensures
        r@ == sorted(items@, key_fn::<M, S>()),
        in_order(names(r@)),
        r@.to_multiset() == items@.to_multiset(),
{
    let ghost all = items@;
    let ghost key = key_fn::<M, S>();
    let mut r: Vec<M> = Vec::new();
    for item in it: items
        invariant
            it.seq() == all,
            key == key_fn::<M, S>(),
            r@ == sorted(all.take(it.index() as int), key),
    {
        let ghost done = r@;
        let ghost i = it.index() as int;
        let name = item.symbols();
        let mut at: usize = r.len();
        while at > 0 && is_before(&name, &r[at - 1].symbols())
            invariant
                at <= r@.len(),
                r@ == done,
                key == key_fn::<M, S>(),
                name@ == key(item),
                forall|k: int| at <= k < done.len() ==> precedes(name@, key(#[trigger] done[k])),
            decreases at,
        {
            at -= 1;
        }
        proof {
            lemma_put_in_at(done, key, item, at as int);
            assert(all.take(i + 1).drop_last() == all.take(i));
            assert(all.take(i + 1).last() == item);
        }
        r.insert(at, item);
    }
    proof {
        assert(all.take(all.len() as int) == all);
        lemma_sorted(all, key);
    }
    r
}

/// Sorting keeps pace with a change of the items that keeps their names.
pub proof fn lemma_sorted_map<M, N, T: Symbol>(
    s: Seq<M>,
    key: spec_fn(M) -> Seq<T>,
    f: spec_fn(M) -> N,
    image_key: spec_fn(N) -> Seq<T>,
)
    requires
        forall|m: M| #[trigger] image_key(f(m)) == key(m),
    ensures
        sorted(s, key).map_values(f) == sorted(s.map_values(f), image_key),
    decreases s.len(),
{
    if s.len() > 0 {
        let head = s.drop_last();
        lemma_sorted_map(head, key, f, image_key);
        lemma_put_in_map(sorted(head, key), key, s.last(), f, image_key);
        assert(s.map_values(f).drop_last() =~= head.map_values(f));
    } else {
        assert(s.map_values(f) =~= Seq::empty());
    }
}

proof fn lemma_put_in_map<M, N, T: Symbol>(
    s: Seq<M>,
    key: spec_fn(M) -> Seq<T>,
    x: M,
    f: spec_fn(M) -> N,
    image_key: spec_fn(N) -> Seq<T>,
)
    requires
        forall|m: M| #[trigger] image_key(f(m)) == key(m),
    ensures
        put_in(s, key, x).map_values(f) == put_in(s.map_values(f), image_key, f(x)),
    decreases s.len(),
{
    if s.len() > 0 && precedes(key(x), key(s.last())) {
        let head = s.drop_last();
        lemma_put_in_map(head, key, x, f, image_key);
        assert(s.map_values(f).drop_last() =~= head.map_values(f));
        assert(s.map_values(f).last() == f(s.last()));
        assert(put_in(s, key, x).map_values(f) =~= put_in(head, key, x).map_values(f).push(
            f(s.last()),
        ));
    } else {
        assert(image_key(f(x)) == key(x));
        if s.len() > 0 {
            assert(s.map_values(f).last() == f(s.last()));
            assert(image_key(f(s.last())) == key(s.last()));
        }
        assert(s.push(x).map_values(f) =~= s.map_values(f).push(f(x)));
    }
}

/// Two lists of the same items in the order of their keys are the same list, where no two
/// different items have the same key.
pub proof fn lemma_in_order_unique<M, T: Symbol>(x: Seq<M>, y: Seq<M>, key: spec_fn(M) -> Seq<T>)
    requires
        in_order(keys_of(x, key)),
        in_order(keys_of(y, key)),
        x.to_multiset() == y.to_multiset(),
        forall|i: int, j: int|
            #![trigger x[i], x[j]]
            0 <= i < x.len() && 0 <= j < x.len() && key(x[i]) == key(x[j]) ==> x[i] == x[j],
    ensures
        x == y,
    decreases x.len(),
{
    broadcast use vstd::multiset::group_multiset_axioms;
    broadcast use vstd::seq_lib::group_to_multiset_ensures;

    assert(x.len() == x.to_multiset().len() && y.len() == y.to_multiset().len());
    if x.len() > 0 {
        assert(x.to_multiset().contains(y[0]));
        assert(y.to_multiset().contains(x[0]));
        let i = choose|i: int| 0 <= i < x.len() && x[i] == y[0];
        let j = choose|j: int| 0 <= j < y.len() && y[j] == x[0];
        assert(!precedes(keys_of(x, key)[i], keys_of(x, key)[0])) by {
            if i == 0 {
                lemma_precedes_irreflexive(key(x[0]));
            }
        }
        assert(!precedes(keys_of(y, key)[j], keys_of(y, key)[0])) by {
            if j == 0 {
                lemma_precedes_irreflexive(key(y[0]));
            }
        }
        lemma_precedes_total(key(x[0]), key(y[0]));
        assert(x[0] == y[0]);
        let a = x.remove(0);
        let b = y.remove(0);
        assert forall|p: int, q: int|
            #![trigger keys_of(a, key)[p], keys_of(a, key)[q]]
            0 <= p < q < a.len() implies !precedes(keys_of(a, key)[q], keys_of(a, key)[p]) by {
            assert(keys_of(a, key)[p] == keys_of(x, key)[p + 1]);
            assert(keys_of(a, key)[q] == keys_of(x, key)[q + 1]);
        }
        assert forall|p: int, q: int|
            #![trigger keys_of(b, key)[p], keys_of(b, key)[q]]
            0 <= p < q < b.len() implies !precedes(keys_of(b, key)[q], keys_of(b, key)[p]) by {
            assert(keys_of(b, key)[p] == keys_of(y, key)[p + 1]);
            assert(keys_of(b, key)[q] == keys_of(y, key)[q + 1]);
        }
        assert forall|p: int, q: int|
            #![trigger a[p], a[q]]
            0 <= p < a.len() && 0 <= q < a.len() && key(a[p]) == key(a[q]) implies a[p]
            == a[q] by {
            assert(a[p] == x[p + 1] && a[q] == x[q + 1]);
        }
        lemma_in_order_unique(a, b, key);
        assert(x =~= seq![x[0]] + a);
        assert(y =~= seq![y[0]] + b);
    } else {
        assert(x =~= y);
    }
}

/// The name `n` added to the ascending list `s`, where it is not there yet.
pub open spec fn add_name<T: Symbol>(s: Seq<Seq<T>>, n: Seq<T>) -> Seq<Seq<T>>
    decreases s.len(),
{
    if s.len() > 0 && precedes(n, s.last()) {
        add_name(s.drop_last(), n).push(s.last())
    } else if s.len() > 0 && s.last() == n {
        s
    } else {
        s.push(n)
    }
}

/// The different names in `s`, in ascending order.
pub open spec fn name_list<T: Symbol>(s: Seq<Seq<T>>) -> Seq<Seq<T>>
    decreases s.len(),
{
    if s.len() == 0 {
        s
    } else {
        add_name(name_list(s.drop_last()), s.last())
    }
}

/// The last position of the name `n` in `s`.
pub open spec fn latest<T>(s: Seq<Seq<T>>, n: Seq<T>) -> Option<int>
    decreases s.len(),
{
    if s.len() == 0 {
        None
    } else if s.last() == n {
        Some(s.len() - 1)
    } else {
        latest(s.drop_last(), n)
    }
}

/// `latest` finds a name exactly where it is there, and its last position.
pub proof fn lemma_latest<T>(s: Seq<Seq<T>>, n: Seq<T>)
    ensures
        latest(s, n) is Some <==> s.contains(n),
        latest(s, n) matches Some(i) ==> 0 <= i < s.len() && s[i] == n && forall|j: int|
            i < j < s.len() ==> s[j] != n,
    decreases s.len(),
{
    if s.len() > 0 {
        if s.last() == n {
            assert(s[s.len() - 1] == n);
        } else {
            let head = s.drop_last();
            lemma_latest(head, n);
            if s.contains(n) {
                let k = choose|k: int| 0 <= k < s.len() && s[k] == n;
                assert(head[k] == n);
            }
            if head.contains(n) {
                let k = choose|k: int| 0 <= k < head.len() && head[k] == n;
                assert(s[k] == n);
            }
            if let Some(i) = latest(head, n) {
                assert(s[i] == head[i]);
                assert forall|j: int| i < j < s.len() implies s[j] != n by {
                    if j < head.len() {
                        assert(head[j] == s[j]);
                    }
                }
            }
        }
    }
}

/// Adding a name keeps the list ascending and adds that name alone.
proof fn lemma_add_name<T: Symbol>(s: Seq<Seq<T>>, n: Seq<T>)
    requires
        ascending(s),
    ensures
        ascending(add_name(s, n)),
        forall|m: Seq<T>| #[trigger] add_name(s, n).contains(m) <==> (m == n || s.contains(m)),
    decreases s.len(),
{
    let r = add_name(s, n);
    if s.len() > 0 && precedes(n, s.last()) {
        let head = s.drop_last();
        assert forall|i: int, j: int|
            #![trigger head[i], head[j]]
            0 <= i < j < head.len() implies precedes(head[i], head[j]) by {
            assert(s[i] == head[i] && s[j] == head[j]);
        }
        lemma_add_name(head, n);
        let q = add_name(head, n);
        assert forall|m: Seq<T>| #[trigger] r.contains(m) <==> (m == n || s.contains(m)) by {
            if r.contains(m) {
                let k = choose|k: int| 0 <= k < r.len() && r[k] == m;
                if k < q.len() {
                    assert(q[k] == m);
                    assert(q.contains(m));
                    if m != n {
                        let h = choose|h: int| 0 <= h < head.len() && head[h] == m;
                        assert(s[h] == m);
                    }
                } else {
                    assert(s[s.len() - 1] == m);
                }
            }
            if m == n || head.contains(m) {
                assert(q.contains(m));
                let k = choose|k: int| 0 <= k < q.len() && q[k] == m;
                assert(r[k] == m);
            } else if s.contains(m) {
                let h = choose|h: int| 0 <= h < s.len() && s[h] == m;
                if h < head.len() {
                    assert(head[h] == m);
                }
                assert(r[r.len() - 1] == m);
            }
        }
        assert forall|i: int, j: int|
            #![trigger r[i], r[j]]
            0 <= i < j < r.len() implies precedes(r[i], r[j]) by {
            if j < q.len() {
                assert(q[i] == r[i] && q[j] == r[j]);
            } else {
                assert(q[i] == r[i]);
                assert(q.contains(q[i]));
                if q[i] != n {
                    let h = choose|h: int| 0 <= h < head.len() && head[h] == q[i];
                    assert(s[h] == r[i] && s[s.len() - 1] == r[j]);
                }
            }
        }
    } else if s.len() > 0 && s.last() == n {
        assert(s[s.len() - 1] == n);
    } else {
        assert forall|i: int, j: int|
            #![trigger r[i], r[j]]
            0 <= i < j < r.len() implies precedes(r[i], r[j]) by {
            if j < s.len() {
                assert(s[i] == r[i] && s[j] == r[j]);
            } else {
                lemma_precedes_total(s.last(), n);
                if i < s.len() - 1 {
                    assert(s[i] == r[i] && s[s.len() - 1] == s.last());
                    lemma_precedes_transitive(s[i], s.last(), n);
                }
            }
        }
        assert forall|m: Seq<T>| #[trigger] r.contains(m) <==> (m == n || s.contains(m)) by {
            if r.contains(m) {
                let k = choose|k: int| 0 <= k < r.len() && r[k] == m;
                if k < s.len() {
                    assert(s[k] == m);
                }
            }
            if m == n {
                assert(r[s.len() as int] == m);
            } else if s.contains(m) {
                let k = choose|k: int| 0 <= k < s.len() && s[k] == m;
                assert(r[k] == m);
            }
        }
    }
}

/// The name list of `s` is ascending and holds the names in `s`, no others.
pub proof fn lemma_name_list<T: Symbol>(s: Seq<Seq<T>>)
    ensures
        ascending(name_list(s)),
        forall|m: Seq<T>| #[trigger] name_list(s).contains(m) <==> s.contains(m),
    decreases s.len(),
{
    if s.len() > 0 {
        let head = s.drop_last();
        lemma_name_list(head);
        lemma_add_name(name_list(head), s.last());
        assert forall|m: Seq<T>| #[trigger] name_list(s).contains(m) <==> s.contains(m) by {
            if s.contains(m) {
                let k = choose|k: int| 0 <= k < s.len() && s[k] == m;
                if k < head.len() {
                    assert(head[k] == m);
                    assert(name_list(head).contains(m));
                }
            }
            if m == s.last() {
                assert(s[s.len() - 1] == m);
            } else if name_list(head).contains(m) {
                let k = choose|k: int| 0 <= k < head.len() && head[k] == m;
                assert(s[k] == m);
            }
        }
    }
}

/// The places at which the different names stand last, in the order of the names.
pub open spec fn is_index<T: Symbol>(places: Seq<usize>, s: Seq<Seq<T>>) -> bool {
    &&& places.len() == name_list(s).len()
    &&& forall|k: int|
        0 <= k < places.len() ==> latest(s, #[trigger] name_list(s)[k]) == Some(places[k] as int)
}

/// Adding a name is to insert it at the one place that keeps the list ascending.
proof fn lemma_add_name_at<T: Symbol>(s: Seq<Seq<T>>, n: Seq<T>, at: int)
    requires
        0 <= at <= s.len(),
        forall|k: int| at <= k < s.len() ==> precedes(n, #[trigger] s[k]),
        at > 0 ==> !precedes(n, s[at - 1]),
    ensures
        add_name(s, n) == if at > 0 && s[at - 1] == n {
            s
        } else {
            s.insert(at, n)
        },
    decreases s.len(),
{
    if at < s.len() {
        let head = s.drop_last();
        assert(precedes(n, s[s.len() - 1]));
        lemma_add_name_at(head, n, at);
        assert(head.push(s.last()) =~= s);
        assert(head.insert(at, n).push(s.last()) =~= s.insert(at, n));
    } else {
        assert(s.insert(at, n) =~= s.push(n));
    }
}

/// For each different name, in ascending order, the place of the last item of that name.
pub fn by_name<M: Keyed<S>, S: Symbol>(items: &[M]) -> (r: Vec<usize>)
    ensures
        is_index(r@, names::<M, S>(items@)),
{
    let ghost all = names::<M, S>(items@);
    let mut r: Vec<usize> = Vec::new();
    for i in 0..items.len()
        invariant
            all == names::<M, S>(items@),
            is_index(r@, all.take(i as int)),
    {
        let ghost done = name_list(all.take(i as int));
        let ghost places = r@;
        let name = items[i].symbols();
        proof {
            lemma_index_places(places, all.take(i as int));
        }
        let mut at: usize = r.len();
        while at > 0 && is_before(&name, &items[r[at - 1]].symbols())
            invariant
                at <= r@.len(),
                r@ == places,
                r@.len() == done.len(),
                i < items@.len(),
                all == names::<M, S>(items@),
                name@ == all[i as int],
                forall|k: int|
                    0 <= k < done.len() ==> #[trigger] places[k] < i && all[places[k] as int]
                        == done[k],
                forall|k: int| at <= k < done.len() ==> precedes(name@, #[trigger] done[k]),
            decreases at,
        {
            assert(all[places[at - 1] as int] == done[at - 1]);
            at -= 1;
        }
        proof {
            if at > 0 {
                assert(all[places[at - 1] as int] == done[at - 1]);
            }
            lemma_add_name_at(done, name@, at as int);
            assert(all.take(i + 1).drop_last() == all.take(i as int));
            assert(all.take(i + 1).last() == all[i as int]);
        }
        let replace: bool = at > 0 && !is_before(&items[r[at - 1]].symbols(), &name);
        proof {
            if at > 0 {
                lemma_precedes_total(done[at - 1], name@);
                lemma_precedes_irreflexive(name@);
            }
        }
        if replace {
            r.set(at - 1, i);
        } else {
            r.insert(at, i);
        }
        proof {
            let before = all.take(i as int);
            let after = all.take(i + 1);
            lemma_name_list(before);
            assert forall|k: int| 0 <= k < r@.len() implies latest(
                after,
                #[trigger] name_list(after)[k],
            ) == Some(r@[k] as int) by {
                let m = name_list(after)[k];
                if replace {
                    if k == at - 1 {
                        assert(m == name@);
                    } else {
                        if m == name@ {
                            lemma_ascending_apart(done, k, at - 1);
                        }
                        assert(latest(before, done[k]) == Some(places[k] as int));
                    }
                } else {
                    if k < at {
                        assert(m == done[k]);
                        if m == name@ {
                            lemma_ascending_apart(done, k, at - 1);
                            if k < at - 1 {
                                assert(precedes(done[k], done[at - 1]));
                            }
                        }
                    } else if k > at {
                        assert(m == done[k - 1]);
                        lemma_precedes_one_way(name@, m);
                    }
                }
            }
        }
    }
    assert(all.take(items@.len() as int) == all);
    r
}

/// Two places of an ascending list hold different names.
proof fn lemma_ascending_apart<T: Symbol>(s: Seq<Seq<T>>, i: int, j: int)
    requires
        ascending(s),
        0 <= i < s.len(),
        0 <= j < s.len(),
        i != j,
    ensures
        s[i] != s[j],
{
    lemma_precedes_irreflexive(s[i]);
    if i < j {
        assert(precedes(s[i], s[j]));
    } else {
        assert(precedes(s[j], s[i]));
    }
}

/// An index points at the names that it lists.
pub proof fn lemma_index_places<T: Symbol>(places: Seq<usize>, s: Seq<Seq<T>>)
    requires
        is_index(places, s),
    ensures
        forall|k: int|
            0 <= k < places.len() ==> #[trigger] places[k] < s.len() && s[places[k] as int]
                == name_list(s)[k],
{
    assert forall|k: int| 0 <= k < places.len() implies #[trigger] places[k] < s.len()
        && s[places[k] as int] == name_list(s)[k] by {
        assert(latest(s, name_list(s)[k]) == Some(places[k] as int));
        lemma_latest(s, name_list(s)[k]);
    }
}

/// The place of the last item of the name `name`.
pub fn look_up<M: Keyed<S>, S: Symbol>(items: &[M], name: &[S]) -> (r: Option<usize>)
    ensures
        match r {
            Some(i) => latest(names::<M, S>(items@), name@) == Some(i as int),
            None => latest(names::<M, S>(items@), name@) is None,
        },
        r matches Some(i) ==> i < items@.len() && items@[i as int].key() == name@,
{
    let ghost all = names::<M, S>(items@);
    let mut i: usize = items.len();
    assert(all.take(i as int) == all);
    while i > 0
        invariant
            i <= items@.len(),
            all == names::<M, S>(items@),
            latest(all, name@) == latest(all.take(i as int), name@),
        decreases i,
    {
        i -= 1;
        let own = items[i].symbols();
        assert(all.take(i + 1).drop_last() == all.take(i as int));
        assert(all.take(i + 1).last() == own@);
        let other: bool = is_before(&own, name) || is_before(name, &own);
        proof {
            lemma_precedes_total(own@, name@);
            lemma_precedes_irreflexive(name@);
        }
        if !other {
            return Some(i);
        }
    }
    None
}

/// Two lists hold the same names.
pub open spec fn same_names<T>(a: Seq<Seq<T>>, b: Seq<Seq<T>>) -> bool {
    forall|n: Seq<T>| #[trigger] a.contains(n) <==> b.contains(n)
}

/// An ascending list is determined by the names that it holds.
pub proof fn lemma_ascending_unique<T: Symbol>(a: Seq<Seq<T>>, b: Seq<Seq<T>>)
    requires
        ascending(a),
        ascending(b),
        same_names(a, b),
    ensures
        a == b,
    decreases a.len(),
{
    if a.len() == 0 {
        if b.len() > 0 {
            assert(b.contains(b[0]));
            assert(a.contains(b[0]));
        }
        assert(a =~= b);
    } else {
        assert(a.contains(a.last()));
        assert(b.contains(a.last()));
        let at = choose|k: int| 0 <= k < b.len() && b[k] == a.last();
        assert(b.contains(b.last()));
        assert(a.contains(b.last()));
        let from = choose|k: int| 0 <= k < a.len() && a[k] == b.last();
        if at < b.len() - 1 {
            assert(precedes(b[at], b[b.len() - 1]));
            if from < a.len() - 1 {
                assert(precedes(a[from], a[a.len() - 1]));
            }
            lemma_precedes_one_way(a.last(), b.last());
        }
        let x = a.drop_last();
        let y = b.drop_last();
        assert forall|i: int, j: int|
            #![trigger x[i], x[j]]
            0 <= i < j < x.len() implies precedes(x[i], x[j]) by {
            assert(a[i] == x[i] && a[j] == x[j]);
        }
        assert forall|i: int, j: int|
            #![trigger y[i], y[j]]
            0 <= i < j < y.len() implies precedes(y[i], y[j]) by {
            assert(b[i] == y[i] && b[j] == y[j]);
        }
        assert forall|n: Seq<T>| #[trigger] x.contains(n) <==> y.contains(n) by {
            lemma_precedes_irreflexive(n);
            if x.contains(n) {
                let k = choose|k: int| 0 <= k < x.len() && x[k] == n;
                assert(a[k] == n);
                assert(precedes(a[k], a[a.len() - 1]));
                assert(a.contains(n));
                assert(b.contains(n));
                let h = choose|h: int| 0 <= h < b.len() && b[h] == n;
                assert(y[h] == n);
            }
            if y.contains(n) {
                let k = choose|k: int| 0 <= k < y.len() && y[k] == n;
                assert(b[k] == n);
                assert(precedes(b[k], b[b.len() - 1]));
                assert(a.contains(n));
                let h = choose|h: int| 0 <= h < a.len() && a[h] == n;
                assert(x[h] == n);
            }
        }
        lemma_ascending_unique(x, y);
        assert(a =~= x.push(a.last()));
        assert(b =~= y.push(b.last()));
    }
}

/// Lists that hold the same names have the same ascending list of names.
pub proof fn lemma_same_name_list<T: Symbol>(a: Seq<Seq<T>>, b: Seq<Seq<T>>)
    requires
        same_names(a, b),
    ensures
        name_list(a) == name_list(b),
{
    lemma_name_list(a);
    lemma_name_list(b);
    assert forall|n: Seq<T>| #[trigger] name_list(a).contains(n) <==> name_list(b).contains(n) by {
        assert(a.contains(n) <==> b.contains(n));
    }
    lemma_ascending_unique(name_list(a), name_list(b));
}

/// Items that were put in another order are the same items.
proof fn lemma_same_items<M>(x: Seq<M>, y: Seq<M>)
    requires
        x.to_multiset() == y.to_multiset(),
    ensures
        x.len() == y.len(),
        forall|m: M| #[trigger] x.contains(m) <==> y.contains(m),
        x.no_duplicates() ==> y.no_duplicates(),
{
    broadcast use vstd::seq_lib::group_to_multiset_ensures;
    broadcast use vstd::multiset::group_multiset_axioms;

    assert(x.len() == x.to_multiset().len() && y.len() == y.to_multiset().len());
    assert forall|m: M| #[trigger] x.contains(m) <==> y.contains(m) by {
        assert(x.contains(m) <==> x.to_multiset().count(m) > 0);
        assert(y.contains(m) <==> y.to_multiset().count(m) > 0);
    }
    if x.no_duplicates() {
        x.lemma_multiset_has_no_duplicates();
        y.lemma_multiset_has_no_duplicates_conv();
    }
}

/// Items with different keys that were put in another order have the same keys, all different, and
/// the same item under each key.
pub proof fn lemma_reordered<M, T>(x: Seq<M>, y: Seq<M>, key: spec_fn(M) -> Seq<T>)
    requires
        x.to_multiset() == y.to_multiset(),
        x.map_values(key).no_duplicates(),
    ensures
        x.len() == y.len(),
        y.map_values(key).no_duplicates(),
        same_names(x.map_values(key), y.map_values(key)),
        forall|i: int, j: int|
            #![trigger x[i], y[j]]
            0 <= i < x.len() && 0 <= j < y.len() && key(x[i]) == key(y[j]) ==> x[i] == y[j],
{
    let a = x.map_values(key);
    let b = y.map_values(key);
    assert(x.no_duplicates()) by {
        assert forall|i: int, j: int| 0 <= i < x.len() && 0 <= j < x.len() && i != j implies x[i]
            != x[j] by {
            assert(a[i] != a[j]);
        }
    }
    lemma_same_items(x, y);
    assert forall|i: int, j: int|
        #![trigger x[i], y[j]]
        0 <= i < x.len() && 0 <= j < y.len() && key(x[i]) == key(y[j]) implies x[i] == y[j] by {
        assert(y.contains(y[j]));
        assert(x.contains(y[j]));
        let k = choose|k: int| 0 <= k < x.len() && x[k] == y[j];
        assert(a[k] == a[i]);
    }
    assert forall|i: int, j: int| 0 <= i < b.len() && 0 <= j < b.len() && i != j implies b[i]
        != b[j] by {
        if b[i] == b[j] {
            assert(y.contains(y[i]));
            assert(x.contains(y[i]));
            let k = choose|k: int| 0 <= k < x.len() && x[k] == y[i];
            assert(x[k] == y[j]);
        }
    }
    assert forall|n: Seq<T>| #[trigger] a.contains(n) <==> b.contains(n) by {
        if a.contains(n) {
            let i = choose|i: int| 0 <= i < a.len() && a[i] == n;
            assert(x.contains(x[i]));
            assert(y.contains(x[i]));
            let j = choose|j: int| 0 <= j < y.len() && y[j] == x[i];
            assert(b[j] == n);
        }
        if b.contains(n) {
            let j = choose|j: int| 0 <= j < b.len() && b[j] == n;
            assert(y.contains(y[j]));
            assert(x.contains(y[j]));
            let i = choose|i: int| 0 <= i < x.len() && x[i] == y[j];
            assert(a[i] == n);
        }
    }
}

/// Keys in order that all differ are ascending.
pub proof fn lemma_strictly<T: Symbol>(keys: Seq<Seq<T>>)
    requires
        in_order(keys),
        keys.no_duplicates(),
    ensures
        ascending(keys),
{
    assert forall|i: int, j: int|
        #![trigger keys[i], keys[j]]
        0 <= i < j < keys.len() implies precedes(keys[i], keys[j]) by {
        lemma_precedes_total(keys[i], keys[j]);
    }
}

} // verus!
