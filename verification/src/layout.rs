//! Layout of user interface elements.

use vstd::prelude::*;

verus! {

/// Where on an element's box a point lies, along one axis.
#[derive(Clone, Copy, Debug, PartialEq, Eq, Structural)]
pub enum Anchor {
    Min,
    Max,
    Center,
}

} // verus!

verus! {

/// An element of a layout as its tree is built from it: its id and its parent's id.
pub type LayoutElement = (usize, Option<usize>);

/// The index of the first element with the given id at or after `j`, or -1.
pub open spec fn index_of_id_from(e: Seq<LayoutElement>, id: usize, j: int) -> int
    decreases e.len() - j,
{
    if j < 0 || j >= e.len() {
        -1
    } else if e[j].0 == id {
        j
    } else {
        index_of_id_from(e, id, j + 1)
    }
}

/// The index of the element with the given id, or -1.
pub open spec fn index_of_id(e: Seq<LayoutElement>, id: usize) -> int {
    index_of_id_from(e, id, 0)
}

/// The number of parent steps from element `i` to an element without a parent,
/// taking at most `fuel` steps; `None` where the chain leaves the elements or is
/// longer.
pub open spec fn depth_from(e: Seq<LayoutElement>, i: int, fuel: nat) -> Option<nat>
    decreases fuel,
{
    if i < 0 || i >= e.len() {
        None
    } else {
        match e[i].1 {
            None => Some(0),
            Some(p) => if fuel == 0 {
                None
            } else {
                match depth_from(e, index_of_id(e, p), (fuel - 1) as nat) {
                    Some(d) => Some(d + 1),
                    None => None,
                }
            },
        }
    }
}

/// The depth of element `i` in the layout tree.
pub open spec fn depth(e: Seq<LayoutElement>, i: int) -> Option<nat> {
    depth_from(e, i, e.len())
}

/// No two elements share an id.
pub open spec fn unique_ids(e: Seq<LayoutElement>) -> bool {
    forall|i: int, j: int| 0 <= i < e.len() && 0 <= j < e.len() && i != j ==> e[i].0 != e[j].0
}

/// Every element's chain of parents reaches an element without a parent.
pub open spec fn all_rooted(e: Seq<LayoutElement>) -> bool {
    forall|i: int| 0 <= i < e.len() ==> (#[trigger] depth(e, i)) is Some
}

/// Element `a` is laid out before element `b`: it lies higher in the tree, or at
/// the same depth has the smaller id.
pub open spec fn placed_before(e: Seq<LayoutElement>, a: int, b: int) -> bool {
    let da = depth(e, a).unwrap();
    let db = depth(e, b).unwrap();
    da < db || (da == db && e[a].0 < e[b].0)
}

/// The layout tree: the elements level by level from the roots, each level in
/// the order of the ids; the positions (in that order) of the roots; and for
/// each element the positions of its children.
pub struct LayoutTree {
    pub order: Vec<usize>,
    pub root_indices: Vec<usize>,
    pub children: Vec<Vec<usize>>,
}

/// The tree is the layout tree of the elements.
pub open spec fn is_layout_tree(e: Seq<LayoutElement>, t: LayoutTree) -> bool {
    let n = e.len();
    let order = t.order@;
    &&& order.len() == n
    &&& forall|k: int| 0 <= k < n ==> (#[trigger] order[k]) < n
    &&& forall|k: int, m: int| 0 <= k < m < n ==> placed_before(e, #[trigger] order[k] as int, #[trigger] order[m] as int)
    &&& forall|x: int, y: int|
        0 <= x < t.root_indices@.len() && 0 <= y < t.root_indices@.len() && x < y
            ==> t.root_indices@[x] < t.root_indices@[y]
    &&& forall|k: int|
        0 <= k < n ==> (e[#[trigger] order[k] as int].1 is None <==> t.root_indices@.contains(k as usize))
    &&& forall|x: int| 0 <= x < t.root_indices@.len() ==> #[trigger] t.root_indices@[x] < n
    &&& t.children@.len() == n
    &&& forall|k: int| 0 <= k < n ==> is_children_list(e, order, k, #[trigger] t.children@[k]@)
}

/// `c` lists, in increasing order, the positions of the children of the element
/// at position `k`.
pub open spec fn is_children_list(e: Seq<LayoutElement>, order: Seq<usize>, k: int, c: Seq<usize>) -> bool {
    &&& forall|x: int, y: int| 0 <= x < y < c.len() ==> c[x] < c[y]
    &&& forall|x: int| 0 <= x < c.len() ==> #[trigger] c[x] < order.len()
    &&& forall|m: int|
        0 <= m < order.len() ==> (c.contains(m as usize) <==> e[#[trigger] order[m] as int].1 == Some(
            e[order[k] as int].0,
        ))
}

/// The index of the element with the given id, if any.
fn find_id(e: &Vec<LayoutElement>, id: usize) -> (r: Option<usize>)
    ensures
        match r {
            Some(j) => j == index_of_id(e@, id) && j < e@.len(),
            None => index_of_id(e@, id) == -1,
        },
{
    let mut j: usize = 0;
    while j < e.len()
        invariant
            j <= e@.len(),
            index_of_id(e@, id) == index_of_id_from(e@, id, j as int),
        decreases e@.len() - j,
    {
        if e[j].0 == id {
            return Some(j);
        }
        j = j + 1;
    }
    None
}

/// The depth of element `i`, if its chain of parents reaches a root.
fn element_depth(e: &Vec<LayoutElement>, i: usize) -> (r: Option<usize>)
    requires
        i < e@.len(),
    ensures
        match r {
            Some(d) => depth(e@, i as int) == Some(d as nat),
            None => depth(e@, i as int) is None,
        },
{
    let n = e.len();
    let mut cur = i;
    let mut steps: usize = 0;
    loop
        invariant
            n == e@.len(),
            cur < n,
            steps <= n,
            depth(e@, i as int) == match depth_from(e@, cur as int, (n - steps) as nat) {
                Some(d) => Some((d + steps) as nat),
                None => None::<nat>,
            },
        decreases n - steps,
    {
        match e[cur].1 {
            None => {
                return Some(steps);
            },
            Some(p) => {
                if steps == n {
                    return None;
                }
                match find_id(e, p) {
                    Some(j) => {
                        cur = j;
                        steps = steps + 1;
                    },
                    None => {
                        proof {
                            let fuel = (n - steps) as nat;
                            assert(fuel > 0);
                            assert(depth_from(e@, -1, (fuel - 1) as nat) is None);
                            assert(depth_from(e@, cur as int, fuel) is None);
                        }
                        return None;
                    },
                }
            },
        }
    }
}


/// Element `a` is laid out before element `b`, by their depths.
fn before(e: &Vec<LayoutElement>, depths: &Vec<usize>, a: usize, b: usize) -> (r: bool)
    requires
        a < e@.len(),
        b < e@.len(),
        depths@.len() == e@.len(),
        forall|k: int| 0 <= k < e@.len() ==> depth(e@, k) == Some(#[trigger] depths@[k] as nat),
    ensures
        r == placed_before(e@, a as int, b as int),
{
    depths[a] < depths[b] || (depths[a] == depths[b] && e[a].0 < e[b].0)
}

/// The layout tree of elements with distinct ids whose parent chains all reach
/// a root: the order in which they are laid out, the roots, and each element's
/// children.
pub fn build_layout_tree(elements: &Vec<LayoutElement>) -> (r: LayoutTree)
    requires
        unique_ids(elements@),
        all_rooted(elements@),
    ensures
        is_layout_tree(elements@, r),
{
    let ghost e = elements@;
    let n = elements.len();
    let mut depths: Vec<usize> = Vec::new();
    let mut i: usize = 0;
    while i < n
        invariant
            e == elements@,
            n == e.len(),
            all_rooted(e),
            i <= n,
            depths@.len() == i,
            forall|k: int| 0 <= k < i ==> depth(e, k) == Some(#[trigger] depths@[k] as nat),
        decreases n - i,
    {
        let d = element_depth(elements, i);
        proof {
            assert(depth(e, i as int) is Some);
        }
        depths.push(d.unwrap());
        i = i + 1;
    }
    let mut remaining: Vec<usize> = Vec::new();
    let mut i: usize = 0;
    while i < n
        invariant
            i <= n,
            remaining@.len() == i,
            forall|k: int| 0 <= k < i ==> #[trigger] remaining@[k] == k,
        decreases n - i,
    {
        remaining.push(i);
        i = i + 1;
    }
    let mut order: Vec<usize> = Vec::new();
    proof {
        assert forall|x: usize| x < n implies #[trigger] remaining@.contains(x) by {
            assert(remaining@[x as int] == x);
        }
        assert forall|j: int, k: int| 0 <= j < k < remaining@.len() implies remaining@[j] != remaining@[k] by {
            assert(remaining@[j] == j);
            assert(remaining@[k] == k);
        }
    }
    while remaining.len() > 0
        invariant
            e == elements@,
            n == e.len(),
            unique_ids(e),
            depths@.len() == n,
            forall|k: int| 0 <= k < n ==> depth(e, k) == Some(#[trigger] depths@[k] as nat),
            order@.len() + remaining@.len() == n,
            forall|x: usize| x < n ==> #[trigger] order@.contains(x) || #[trigger] remaining@.contains(x),
            forall|k: int| 0 <= k < order@.len() ==> #[trigger] order@[k] < n,
            forall|j: int| 0 <= j < remaining@.len() ==> #[trigger] remaining@[j] < n,
            forall|j: int, k: int| 0 <= j < k < remaining@.len() ==> remaining@[j] != remaining@[k],
            forall|k: int, m: int|
                0 <= k < m < order@.len() ==> placed_before(e, #[trigger] order@[k] as int, #[trigger] order@[m] as int),
            forall|k: int, j: int|
                0 <= k < order@.len() && 0 <= j < remaining@.len() ==> placed_before(
                    e,
                    #[trigger] order@[k] as int,
                    #[trigger] remaining@[j] as int,
                ),
        decreases remaining@.len(),
    {
        let mut best: usize = 0;
        let mut j: usize = 1;
        while j < remaining.len()
            invariant
                e == elements@,
                n == e.len(),
                depths@.len() == n,
                forall|k: int| 0 <= k < n ==> depth(e, k) == Some(#[trigger] depths@[k] as nat),
                forall|t: int| 0 <= t < remaining@.len() ==> #[trigger] remaining@[t] < n,
                remaining@.len() > 0,
                best < remaining@.len(),
                1 <= j <= remaining@.len(),
                best < j,
                forall|t: int| 0 <= t < j ==> !placed_before(e, #[trigger] remaining@[t] as int, remaining@[best as int] as int),
            decreases remaining@.len() - j,
        {
            if before(elements, &depths, remaining[j], remaining[best]) {
                best = j;
            }
            j = j + 1;
        }
        let ghost rem = remaining@;
        let ghost ord = order@;
        let chosen = remaining.remove(best);
        order.push(chosen);
        proof {
            assert forall|t: int| 0 <= t < remaining@.len() implies placed_before(
                e,
                chosen as int,
                #[trigger] remaining@[t] as int,
            ) by {
                let t0 = if t < best { t } else { t + 1 };
                assert(remaining@[t] == rem[t0]);
                assert(rem[t0] != rem[best as int]);
                assert(!placed_before(e, rem[t0] as int, chosen as int));
                assert(e[rem[t0] as int].0 != e[chosen as int].0);
            }
            assert forall|x: usize| x < n implies #[trigger] order@.contains(x) || #[trigger] remaining@.contains(
                x,
            ) by {
                if ord.contains(x) {
                    let k = choose|k: int| 0 <= k < ord.len() && ord[k] == x;
                    assert(order@[k] == x);
                } else {
                    assert(rem.contains(x));
                    let t = choose|t: int| 0 <= t < rem.len() && rem[t] == x;
                    if t == best {
                        assert(order@[ord.len() as int] == x);
                    } else if t < best {
                        assert(remaining@[t] == x);
                    } else {
                        assert(remaining@[t - 1] == x);
                    }
                }
            }
            assert forall|k: int, m: int|
                0 <= k < m < order@.len() implies placed_before(e, #[trigger] order@[k] as int, #[trigger] order@[m] as int) by {
                if m == ord.len() {
                    assert(order@[m] == rem[best as int]);
                }
            }
            assert forall|k: int, t: int|
                0 <= k < order@.len() && 0 <= t < remaining@.len() implies placed_before(
                    e,
                    #[trigger] order@[k] as int,
                    #[trigger] remaining@[t] as int,
                ) by {
                let t0 = if t < best { t } else { t + 1 };
                assert(remaining@[t] == rem[t0]);
                if k < ord.len() {
                    assert(order@[k] == ord[k]);
                }
            }
            assert forall|a: int, b: int| 0 <= a < b < remaining@.len() implies remaining@[a] != remaining@[b] by {
                let a0 = if a < best { a } else { a + 1 };
                let b0 = if b < best { b } else { b + 1 };
                assert(remaining@[a] == rem[a0]);
                assert(remaining@[b] == rem[b0]);
            }
        }
    }
    let mut root_indices: Vec<usize> = Vec::new();
    let mut k: usize = 0;
    while k < n
        invariant
            e == elements@,
            n == e.len(),
            order@.len() == n,
            forall|m: int| 0 <= m < n ==> #[trigger] order@[m] < n,
            k <= n,
            forall|x: int| 0 <= x < root_indices@.len() ==> #[trigger] root_indices@[x] < k,
            forall|x: int, y: int|
                0 <= x < root_indices@.len() && 0 <= y < root_indices@.len() && x < y
                    ==> root_indices@[x] < root_indices@[y],
            forall|m: int|
                0 <= m < k ==> (e[#[trigger] order@[m] as int].1 is None <==> root_indices@.contains(m as usize)),
        decreases n - k,
    {
        let ghost before_push = root_indices@;
        if elements[order[k]].1.is_none() {
            root_indices.push(k);
            proof {
                assert(root_indices@.last() == k);
                assert forall|m: int| 0 <= m < k implies (e[#[trigger] order@[m] as int].1 is None
                    <==> root_indices@.contains(m as usize)) by {
                    if before_push.contains(m as usize) {
                        let x = choose|x: int| 0 <= x < before_push.len() && before_push[x] == m as usize;
                        assert(root_indices@[x] == m as usize);
                    }
                    if root_indices@.contains(m as usize) {
                        let x = choose|x: int| 0 <= x < root_indices@.len() && root_indices@[x] == m as usize;
                        if x < before_push.len() {
                            assert(before_push[x] == m as usize);
                        }
                    }
                }
            }
        } else {
            proof {
                assert(!root_indices@.contains(k));
            }
        }
        k = k + 1;
    }
    let mut children: Vec<Vec<usize>> = Vec::new();
    let mut k: usize = 0;
    while k < n
        invariant
            e == elements@,
            n == e.len(),
            order@.len() == n,
            forall|m: int| 0 <= m < n ==> #[trigger] order@[m] < n,
            k <= n,
            children@.len() == k,
            forall|q: int| 0 <= q < k ==> is_children_list(e, order@, q, #[trigger] children@[q]@),
        decreases n - k,
    {
        let id = elements[order[k]].0;
        let mut list: Vec<usize> = Vec::new();
        let mut m: usize = 0;
        while m < n
            invariant
                e == elements@,
                n == e.len(),
                order@.len() == n,
                forall|t: int| 0 <= t < n ==> #[trigger] order@[t] < n,
                k < n,
                id == e[order@[k as int] as int].0,
                m <= n,
                forall|x: int| 0 <= x < list@.len() ==> #[trigger] list@[x] < m,
                forall|x: int, y: int| 0 <= x < y < list@.len() ==> list@[x] < list@[y],
                forall|t: int|
                    0 <= t < m ==> (list@.contains(t as usize) <==> e[#[trigger] order@[t] as int].1
                        == Some(id)),
            decreases n - m,
        {
            let ghost before_push = list@;
            let is_child = match elements[order[m]].1 {
                Some(p) => p == id,
                None => false,
            };
            if is_child {
                list.push(m);
                proof {
                    assert forall|t: int| 0 <= t < m implies (list@.contains(t as usize)
                        <==> e[#[trigger] order@[t] as int].1 == Some(id)) by {
                        if before_push.contains(t as usize) {
                            let x = choose|x: int| 0 <= x < before_push.len() && before_push[x] == t as usize;
                            assert(list@[x] == t as usize);
                        }
                        if list@.contains(t as usize) {
                            let x = choose|x: int| 0 <= x < list@.len() && list@[x] == t as usize;
                            if x < before_push.len() {
                                assert(before_push[x] == t as usize);
                            }
                        }
                    }
                    assert(list@[before_push.len() as int] == m);
                }
            } else {
                proof {
                    assert(!list@.contains(m));
                }
            }
            m = m + 1;
        }
        children.push(list);
        proof {
            assert forall|q: int| 0 <= q < k + 1 implies is_children_list(e, order@, q, #[trigger] children@[q]@) by {
                if q == k {
                    assert(children@[q]@ == list@);
                }
            }
        }
        k = k + 1;
    }
    LayoutTree { order, root_indices, children }
}


/// `true` when the elements have distinct ids and every parent chain reaches a
/// root, so that their layout tree can be built.
pub fn layout_elements_valid(elements: &Vec<LayoutElement>) -> (r: bool)
    ensures
        r == (unique_ids(elements@) && all_rooted(elements@)),
{
    let n = elements.len();
    let mut i: usize = 0;
    while i < n
        invariant
            n == elements@.len(),
            i <= n,
            forall|a: int, b: int| 0 <= a < i && 0 <= b < n && a != b ==> elements@[a].0 != elements@[b].0,
        decreases n - i,
    {
        let mut j: usize = 0;
        while j < n
            invariant
                n == elements@.len(),
                i < n,
                j <= n,
                forall|a: int, b: int| 0 <= a < i && 0 <= b < n && a != b ==> elements@[a].0 != elements@[b].0,
                forall|b: int| 0 <= b < j && b != i ==> elements@[i as int].0 != elements@[b].0,
            decreases n - j,
        {
            if j != i && elements[i].0 == elements[j].0 {
                return false;
            }
            j = j + 1;
        }
        i = i + 1;
    }
    let mut i: usize = 0;
    while i < n
        invariant
            n == elements@.len(),
            unique_ids(elements@),
            i <= n,
            forall|k: int| 0 <= k < i ==> (#[trigger] depth(elements@, k)) is Some,
        decreases n - i,
    {
        if element_depth(elements, i).is_none() {
            return false;
        }
        i = i + 1;
    }
    true
}


proof fn lemma_depth_fuel(e: Seq<LayoutElement>, i: int, f: nat, g: nat)
    requires
        f <= g,
        depth_from(e, i, f) is Some,
    ensures
        depth_from(e, i, g) == depth_from(e, i, f),
    decreases f,
{
    if 0 <= i < e.len() {
        if let Some(p) = e[i].1 {
            lemma_depth_fuel(e, index_of_id(e, p), (f - 1) as nat, (g - 1) as nat);
        }
    }
}

proof fn lemma_index_of_unique(e: Seq<LayoutElement>, k: int)
    requires
        unique_ids(e),
        0 <= k < e.len(),
    ensures
        index_of_id(e, e[k].0) == k,
{
    lemma_index_from(e, k, 0);
}

proof fn lemma_index_from(e: Seq<LayoutElement>, k: int, j: int)
    requires
        unique_ids(e),
        0 <= k < e.len(),
        0 <= j <= k,
    ensures
        index_of_id_from(e, e[k].0, j) == k,
    decreases k - j,
{
    if j < k {
        assert(e[j].0 != e[k].0);
        lemma_index_from(e, k, j + 1);
    }
}

/// In the layout tree a child comes after its parent: every child position of
/// an element is past the element's own position.
pub proof fn law_children_after_parent(e: Seq<LayoutElement>, t: LayoutTree)
    requires
        unique_ids(e),
        all_rooted(e),
        is_layout_tree(e, t),
    ensures
        forall|k: int, x: int|
            0 <= k < e.len() && 0 <= x < t.children@[k]@.len() ==> #[trigger] t.children@[k]@[x] > k,
{
    let order = t.order@;
    assert forall|k: int, x: int|
        0 <= k < e.len() && 0 <= x < t.children@[k]@.len() implies #[trigger] t.children@[k]@[x] > k by {
        let c = t.children@[k]@;
        assert(is_children_list(e, order, k, c));
        let m = c[x] as int;
        assert(c.contains(m as usize));
        assert(e[order[m] as int].1 == Some(e[order[k] as int].0));
        let pa = order[k] as int;
        let ch = order[m] as int;
        lemma_index_of_unique(e, pa);
        assert(depth(e, ch) is Some);
        assert(depth(e, pa) is Some);
        let n = e.len();
        assert(depth_from(e, pa, (n - 1) as nat) is Some) by {
            assert(depth_from(e, ch, n) is Some);
        }
        lemma_depth_fuel(e, pa, (n - 1) as nat, n);
        assert(depth(e, ch).unwrap() == depth(e, pa).unwrap() + 1);
        assert(placed_before(e, pa, ch));
        if m <= k {
            if m == k {
                assert(ch == pa);
            } else {
                assert(placed_before(e, order[m] as int, order[k] as int));
            }
        }
    }
}

} // verus!
