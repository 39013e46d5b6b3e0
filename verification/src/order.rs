//! The order of paths, component by component, and sorting by it.
use vstd::prelude::*;

verus! {

/// `a` comes before `b` where it does so at the first byte in which they differ, or where it
/// is a proper beginning of `b`.
pub open spec fn bytes_before(a: Seq<u8>, b: Seq<u8>) -> bool
    decreases a.len(),
{
    if b.len() == 0 {
        false
    } else if a.len() == 0 {
        true
    } else if a[0] == b[0] {
        bytes_before(a.skip(1), b.skip(1))
    } else {
        a[0] < b[0]
    }
}

/// The same for paths, by the first component in which they differ.
pub open spec fn path_before(a: Seq<Seq<u8>>, b: Seq<Seq<u8>>) -> bool
    decreases a.len(),
{
    if b.len() == 0 {
        false
    } else if a.len() == 0 {
        true
    } else if a[0] == b[0] {
        path_before(a.skip(1), b.skip(1))
    } else {
        bytes_before(a[0], b[0])
    }
}

proof fn lemma_bytes_total(a: Seq<u8>, b: Seq<u8>)
    ensures
        a != b ==> bytes_before(a, b) || bytes_before(b, a),
        !(bytes_before(a, b) && bytes_before(b, a)),
        !bytes_before(a, a),
    decreases a.len(),
{
    if a.len() > 0 {
        lemma_bytes_total(a.skip(1), a.skip(1));
    }
    if a.len() > 0 && b.len() > 0 {
        lemma_bytes_total(a.skip(1), b.skip(1));
        if a[0] == b[0] && a.skip(1) == b.skip(1) {
            assert(a =~= seq![a[0]] + a.skip(1));
            assert(b =~= seq![b[0]] + b.skip(1));
        }
    } else if a.len() == 0 && b.len() == 0 {
        assert(a =~= b);
    }
}

proof fn lemma_bytes_transitive(a: Seq<u8>, b: Seq<u8>, c: Seq<u8>)
    requires
        bytes_before(a, b),
        bytes_before(b, c),
    ensures
        bytes_before(a, c),
    decreases a.len(),
{
    if a.len() > 0 && a[0] == b[0] && b[0] == c[0] {
        lemma_bytes_transitive(a.skip(1), b.skip(1), c.skip(1));
    }
}

/// The order of paths is a strict one, and of two different paths one comes before the other.
pub proof fn lemma_path_total(a: Seq<Seq<u8>>, b: Seq<Seq<u8>>)
    ensures
        a != b ==> path_before(a, b) || path_before(b, a),
        !(path_before(a, b) && path_before(b, a)),
        !path_before(a, a),
    decreases a.len(),
{
    if a.len() > 0 {
        lemma_path_total(a.skip(1), a.skip(1));
    }
    if a.len() > 0 && b.len() > 0 {
        lemma_path_total(a.skip(1), b.skip(1));
        lemma_bytes_total(a[0], b[0]);
        if a[0] == b[0] && a.skip(1) == b.skip(1) {
            assert(a =~= seq![a[0]] + a.skip(1));
            assert(b =~= seq![b[0]] + b.skip(1));
        }
    } else if a.len() == 0 && b.len() == 0 {
        assert(a =~= b);
    }
}

/// The order of paths is transitive.
pub proof fn lemma_path_transitive(a: Seq<Seq<u8>>, b: Seq<Seq<u8>>, c: Seq<Seq<u8>>)
    requires
        path_before(a, b),
        path_before(b, c),
    ensures
        path_before(a, c),
    decreases a.len(),
{
    if a.len() > 0 {
        if a[0] == b[0] && b[0] == c[0] {
            lemma_path_transitive(a.skip(1), b.skip(1), c.skip(1));
        } else if a[0] != b[0] && b[0] != c[0] {
            lemma_bytes_transitive(a[0], b[0], c[0]);
            lemma_bytes_total(a[0], c[0]);
        }
    }
}

/// Does `a` come before `b`?
fn is_bytes_before(a: &Vec<u8>, b: &Vec<u8>) -> (before: bool)
    ensures
        before == bytes_before(a@, b@),
{
    let mut i: usize = 0;
    proof {
        assert(a@.skip(0) =~= a@);
        assert(b@.skip(0) =~= b@);
    }
    while i < a.len() && i < b.len()
        invariant
            i <= a@.len(),
            i <= b@.len(),
            bytes_before(a@, b@) == bytes_before(a@.skip(i as int), b@.skip(i as int)),
        decreases a@.len() - i,
    {
        proof {
            assert(a@.skip(i as int).skip(1) =~= a@.skip(i + 1));
            assert(b@.skip(i as int).skip(1) =~= b@.skip(i + 1));
        }
        if a[i] != b[i] {
            return a[i] < b[i];
        }
        i = i + 1;
    }
    i < b.len()
}

/// Do two components hold the same bytes?
fn same_bytes(a: &Vec<u8>, b: &Vec<u8>) -> (same: bool)
    ensures
        same == (a@ == b@),
{
    if a.len() != b.len() {
        return false;
    }
    let mut i: usize = 0;
    while i < a.len()
        invariant
            a@.len() == b@.len(),
            i <= a@.len(),
            forall|k: int| 0 <= k < i ==> a@[k] == b@[k],
        decreases a@.len() - i,
    {
        if a[i] != b[i] {
            return false;
        }
        i = i + 1;
    }
    assert(a@ =~= b@);
    true
}

/// A path, as the list of its components.
#[derive(Debug, Clone, PartialEq, Eq)]
pub struct PathKey {
    pub components: Vec<Vec<u8>>,
}

impl DeepView for PathKey {
    type V = Seq<Seq<u8>>;

    open spec fn deep_view(&self) -> Seq<Seq<u8>> {
        self.components.deep_view()
    }
}

/// The bytes of a component are what its deep view holds.
proof fn lemma_component(v: Vec<u8>)
    ensures
        v.deep_view() == v@,
{
    assert(v.deep_view() =~= v@);
}

/// Does path `a` come before path `b`?
pub fn is_path_before(a: &PathKey, b: &PathKey) -> (before: bool)
    ensures
        before == path_before(a.deep_view(), b.deep_view()),
{
    let ghost av = a.deep_view();
    let ghost bv = b.deep_view();
    let mut i: usize = 0;
    proof {
        assert(av.skip(0) =~= av);
        assert(bv.skip(0) =~= bv);
    }
    while i < a.components.len() && i < b.components.len()
        invariant
            av == a.deep_view(),
            bv == b.deep_view(),
            i <= av.len(),
            i <= bv.len(),
            path_before(av, bv) == path_before(av.skip(i as int), bv.skip(i as int)),
        decreases av.len() - i,
    {
        proof {
            assert(av.skip(i as int).skip(1) =~= av.skip(i + 1));
            assert(bv.skip(i as int).skip(1) =~= bv.skip(i + 1));
            lemma_component(a.components@[i as int]);
            lemma_component(b.components@[i as int]);
        }
        if !same_bytes(&a.components[i], &b.components[i]) {
            return is_bytes_before(&a.components[i], &b.components[i]);
        }
        i = i + 1;
    }
    i < b.components.len()
}

/// Item `a` of the list is newer than item `b`: its path comes behind that of `b`, or they
/// have the same path and it was listed later.
pub open spec fn newer(keys: Seq<Seq<Seq<u8>>>, a: int, b: int) -> bool {
    path_before(keys[b], keys[a]) || (keys[a] == keys[b] && a > b)
}

proof fn lemma_newer_transitive(keys: Seq<Seq<Seq<u8>>>, a: int, b: int, c: int)
    requires
        newer(keys, a, b),
        newer(keys, b, c),
    ensures
        newer(keys, a, c),
{
    if path_before(keys[b], keys[a]) && path_before(keys[c], keys[b]) {
        lemma_path_transitive(keys[c], keys[b], keys[a]);
    }
}

/// A list of positions in which each stands once, newer ones first.
pub open spec fn is_newest_first(keys: Seq<Seq<Seq<u8>>>, positions: Seq<usize>) -> bool {
    &&& positions.len() == keys.len()
    &&& forall|i: int| 0 <= i < positions.len() ==> #[trigger] positions[i] < keys.len()
    &&& forall|i: int, j: int|
        0 <= i < j < positions.len() ==> newer(
            keys,
            #[trigger] positions[i] as int,
            #[trigger] positions[j] as int,
        )
    &&& forall|k: usize| k < keys.len() ==> #[trigger] positions.contains(k)
}

/// The list of positions in which newer ones come first. There is one, and no more.
pub open spec fn newest_order(keys: Seq<Seq<Seq<u8>>>) -> Seq<usize> {
    choose|positions: Seq<usize>| is_newest_first(keys, positions)
}

proof fn lemma_newer_is_strict(keys: Seq<Seq<Seq<u8>>>, a: int, b: int)
    ensures
        !(newer(keys, a, b) && newer(keys, b, a)),
        a != b ==> newer(keys, a, b) || newer(keys, b, a),
{
    lemma_path_total(keys[a], keys[b]);
}

proof fn lemma_newest_agree(
    keys: Seq<Seq<Seq<u8>>>,
    p: Seq<usize>,
    q: Seq<usize>,
    i: int,
)
    requires
        is_newest_first(keys, p),
        is_newest_first(keys, q),
        0 <= i < keys.len(),
        forall|k: int| 0 <= k < i ==> p[k] == #[trigger] q[k],
    ensures
        p[i] == q[i],
{
    if p[i] != q[i] {
        assert(q.contains(p[i]));
        let a = choose|a: int| 0 <= a < q.len() && q[a] == p[i];
        assert(p.contains(q[i]));
        let b = choose|b: int| 0 <= b < p.len() && p[b] == q[i];
        if a < i {
            assert(p[a] == q[a]);
            assert(newer(keys, p[a] as int, p[i] as int));
            lemma_newer_is_strict(keys, p[i] as int, p[i] as int);
        } else if b < i {
            assert(p[b] == q[b]);
            assert(newer(keys, q[b] as int, q[i] as int));
            lemma_newer_is_strict(keys, q[i] as int, q[i] as int);
        } else {
            assert(newer(keys, q[i] as int, q[a] as int));
            assert(newer(keys, p[i] as int, p[b] as int));
            lemma_newer_is_strict(keys, p[i] as int, q[i] as int);
        }
    }
}

/// There is no more than one order in which newer paths come first.
pub proof fn law_newest_order_is_unique(
    keys: Seq<Seq<Seq<u8>>>,
    p: Seq<usize>,
    q: Seq<usize>,
)
    requires
        is_newest_first(keys, p),
        is_newest_first(keys, q),
    ensures
        p == q,
{
    assert forall|i: int| 0 <= i < keys.len() implies p[i] == q[i] by {
        lemma_newest_agree_up_to(keys, p, q, i);
    }
    assert(p =~= q);
}

proof fn lemma_newest_agree_up_to(
    keys: Seq<Seq<Seq<u8>>>,
    p: Seq<usize>,
    q: Seq<usize>,
    i: int,
)
    requires
        is_newest_first(keys, p),
        is_newest_first(keys, q),
        0 <= i < keys.len(),
    ensures
        forall|k: int| 0 <= k <= i ==> p[k] == #[trigger] q[k],
    decreases i,
{
    if i > 0 {
        lemma_newest_agree_up_to(keys, p, q, i - 1);
    }
    lemma_newest_agree(keys, p, q, i);
}

/// The first position from `i` on that is not newer than position `n`.
proof fn lemma_place(keys: Seq<Seq<Seq<u8>>>, p: Seq<usize>, n: int, i: int) -> (low: int)
    requires
        0 <= i <= p.len(),
        forall|k: int| 0 <= k < i ==> newer(keys, #[trigger] p[k] as int, n),
    ensures
        i <= low <= p.len(),
        forall|k: int| 0 <= k < low ==> newer(keys, #[trigger] p[k] as int, n),
        low < p.len() ==> !newer(keys, p[low] as int, n),
    decreases p.len() - i,
{
    if i < p.len() && newer(keys, p[i] as int, n) {
        lemma_place(keys, p, n, i + 1)
    } else {
        i
    }
}

/// There is an order in which newer paths come first.
pub proof fn law_newest_order_exists(keys: Seq<Seq<Seq<u8>>>)
    requires
        keys.len() <= usize::MAX,
    ensures
        is_newest_first(keys, newest_order(keys)),
{
    let p = lemma_newest_exists(keys);
    assert(is_newest_first(keys, p));
}

proof fn lemma_newest_exists(keys: Seq<Seq<Seq<u8>>>) -> (p: Seq<usize>)
    requires
        keys.len() <= usize::MAX,
    ensures
        is_newest_first(keys, p),
    decreases keys.len(),
{
    if keys.len() == 0 {
        Seq::empty()
    } else {
        let n = keys.len() - 1;
        let before = keys.drop_last();
        let q = lemma_newest_exists(before);
        assert forall|a: int, b: int| 0 <= a < n && 0 <= b < n implies #[trigger] newer(
            keys,
            a,
            b,
        ) == newer(before, a, b) by {}
        let low = lemma_place(keys, q, n, 0);
        let p = q.insert(low, n as usize);
        assert forall|i: int| low <= i < q.len() implies newer(
            keys,
            n,
            #[trigger] q[i] as int,
        ) by {
            lemma_newer_is_strict(keys, q[low] as int, n);
            if i > low {
                assert(newer(before, q[low] as int, q[i] as int));
                assert(newer(keys, q[low] as int, q[i] as int));
                lemma_newer_transitive(keys, n, q[low] as int, q[i] as int);
            }
        }
        assert forall|i: int| 0 <= i < p.len() implies #[trigger] p[i] < keys.len() by {
            if i < low {
                assert(p[i] == q[i]);
            } else if i > low {
                assert(p[i] == q[i - 1]);
            }
        }
        assert forall|i: int, j: int| 0 <= i < j < p.len() implies newer(
            keys,
            #[trigger] p[i] as int,
            #[trigger] p[j] as int,
        ) by {
            if j < low {
                assert(p[i] == q[i] && p[j] == q[j]);
                assert(newer(before, q[i] as int, q[j] as int));
            } else if i < low && j > low {
                assert(p[i] == q[i] && p[j] == q[j - 1]);
                assert(newer(before, q[i] as int, q[j - 1] as int));
            } else if i > low {
                assert(p[i] == q[i - 1] && p[j] == q[j - 1]);
                assert(newer(before, q[i - 1] as int, q[j - 1] as int));
            } else if i == low {
                assert(p[j] == q[j - 1]);
            } else {
                assert(p[i] == q[i]);
            }
        }
        assert forall|k: usize| k < keys.len() implies #[trigger] p.contains(k) by {
            if k == n {
                assert(p[low] == k);
            } else {
                assert(q.contains(k));
                let i = choose|i: int| 0 <= i < q.len() && q[i] == k;
                if i < low {
                    assert(p[i] == k);
                } else {
                    assert(p[i + 1] == k);
                }
            }
        }
        p
    }
}

/// Order a list of paths, the newest first: paths that come later in the order of paths
/// come first.
pub fn newest_first(keys: &Vec<PathKey>) -> (positions: Vec<usize>)
    ensures
        is_newest_first(keys.deep_view(), positions@),
        positions@ == newest_order(keys.deep_view()),
{
    let ghost views = keys.deep_view();
    let mut positions: Vec<usize> = Vec::new();
    let total: usize = keys.len();
    for n in 0..total
        invariant
            total == keys@.len(),
            views == keys.deep_view(),
            positions@.len() == n,
            forall|i: int| 0 <= i < n ==> #[trigger] positions@[i] < n,
            forall|i: int, j: int|
                0 <= i < j < n ==> newer(
                    views,
                    #[trigger] positions@[i] as int,
                    #[trigger] positions@[j] as int,
                ),
            forall|k: usize| k < n ==> #[trigger] positions@.contains(k),
    {
        let mut low: usize = 0;
        let mut high: usize = n;
        while low < high
            invariant
                total == keys@.len(),
                n < total,
                views == keys.deep_view(),
                positions@.len() == n,
                low <= high <= n,
                forall|i: int| 0 <= i < n ==> #[trigger] positions@[i] < n,
                forall|i: int, j: int|
                    0 <= i < j < n ==> newer(
                        views,
                        #[trigger] positions@[i] as int,
                        #[trigger] positions@[j] as int,
                    ),
                forall|i: int|
                    0 <= i < low ==> newer(views, #[trigger] positions@[i] as int, n as int),
                forall|i: int|
                    high <= i < n ==> newer(views, n as int, #[trigger] positions@[i] as int),
            decreases high - low,
        {
            let middle: usize = low + (high - low) / 2;
            let other: usize = positions[middle];
            proof {
                assert(views[other as int] == keys@[other as int].deep_view());
                assert(views[n as int] == keys@[n as int].deep_view());
                lemma_path_total(views[other as int], views[n as int]);
            }
            if is_path_before(&keys[n], &keys[other]) {
                proof {
                    assert forall|i: int| 0 <= i < middle + 1 implies newer(
                        views,
                        #[trigger] positions@[i] as int,
                        n as int,
                    ) by {
                        if i < middle {
                            lemma_newer_transitive(
                                views,
                                positions@[i] as int,
                                other as int,
                                n as int,
                            );
                        }
                    }
                }
                low = middle + 1;
            } else {
                proof {
                    assert(newer(views, n as int, other as int));
                    assert forall|i: int| middle <= i < n implies newer(
                        views,
                        n as int,
                        #[trigger] positions@[i] as int,
                    ) by {
                        if i > middle {
                            lemma_newer_transitive(
                                views,
                                n as int,
                                other as int,
                                positions@[i] as int,
                            );
                        }
                    }
                }
                high = middle;
            }
        }
        let ghost before = positions@;
        positions.insert(low, n);
        proof {
            assert forall|k: usize| k < n + 1 implies #[trigger] positions@.contains(k) by {
                if k == n {
                    assert(positions@[low as int] == k);
                } else {
                    assert(before.contains(k));
                    let i = choose|i: int| 0 <= i < before.len() && before[i] == k;
                    if i < low {
                        assert(positions@[i] == k);
                    } else {
                        assert(positions@[i + 1] == k);
                    }
                }
            }
        }
    }
    proof {
        law_newest_order_is_unique(views, positions@, newest_order(views));
    }
    positions
}

} // verus!
