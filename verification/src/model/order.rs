use crate::model::compiled_model::CompiledModelView;
use crate::vertex::VertexTex;
use vstd::prelude::*;

verus! {

/// `order` with model `i` put behind every model whose `z` is not greater:
/// among equal `z` the model inserted later is drawn later.
pub open spec fn insert_by_z(order: Seq<usize>, ms: Seq<CompiledModelView>, i: usize) -> Seq<usize>
    decreases order.len(),
{
    if order.len() == 0 {
        seq![i]
    } else if ms[order.last() as int].z <= ms[i as int].z {
        order.push(i)
    } else {
        insert_by_z(order.drop_last(), ms, i).push(order.last())
    }
}

/// The positions of the visible models among the first `n`, in the order
/// they are drawn: ascending `z`, ties in insertion order.
pub open spec fn draw_order(ms: Seq<CompiledModelView>, n: int) -> Seq<usize>
    decreases n,
{
    if n <= 0 {
        Seq::empty()
    } else if ms[n - 1].visible {
        insert_by_z(draw_order(ms, n - 1), ms, (n - 1) as usize)
    } else {
        draw_order(ms, n - 1)
    }
}

/// The vertices of the models listed in `order`, one model after another.
pub open spec fn concat_vertices(ms: Seq<CompiledModelView>, order: Seq<usize>) -> Seq<VertexTex>
    decreases order.len(),
{
    if order.len() == 0 {
        Seq::empty()
    } else {
        concat_vertices(ms, order.drop_last()) + ms[order.last() as int].vertices
    }
}

/// What the shared buffer holds after a rewrite: the vertices of every
/// visible model, the models taken in draw order.
pub open spec fn packed(ms: Seq<CompiledModelView>) -> Seq<VertexTex> {
    concat_vertices(ms, draw_order(ms, ms.len() as int))
}

/// Whether `order` lists positions below `n` so that `z` never falls and
/// equal `z` keeps the positions ascending.
pub open spec fn in_draw_order(ms: Seq<CompiledModelView>, order: Seq<usize>, n: int) -> bool {
    &&& forall|k: int| 0 <= k < order.len() ==> (#[trigger] order[k]) < n
    &&& forall|a: int, b: int|
        0 <= a < b < order.len() ==> {
            let x = #[trigger] order[a];
            let y = #[trigger] order[b];
            ms[x as int].z < ms[y as int].z || (ms[x as int].z == ms[y as int].z && x < y)
        }
}

/// Whether `order` lists position `i`.
pub open spec fn lists(order: Seq<usize>, i: int) -> bool {
    exists|k: int| 0 <= k < order.len() && #[trigger] order[k] == i
}

/// Inserting at the place the scan from the back stops is `insert_by_z`.
pub proof fn lemma_insert_at(order: Seq<usize>, ms: Seq<CompiledModelView>, i: usize, pos: int)
    requires
        0 <= pos <= order.len(),
        forall|k: int| pos <= k < order.len() ==> ms[(#[trigger] order[k]) as int].z > ms[i as int].z,
        pos > 0 ==> ms[order[pos - 1] as int].z <= ms[i as int].z,
    ensures
        insert_by_z(order, ms, i) == order.insert(pos, i),
    decreases order.len(),
{
    if order.len() == 0 {
        assert(seq![i] =~= order.insert(pos, i));
    } else if pos == order.len() {
        assert(order.push(i) =~= order.insert(pos, i));
    } else {
        assert(ms[order[order.len() - 1] as int].z > ms[i as int].z);
        let front = order.drop_last();
        assert forall|k: int| pos <= k < front.len() implies ms[(#[trigger] front[k]) as int].z
            > ms[i as int].z by {
            assert(front[k] == order[k]);
        }
        lemma_insert_at(front, ms, i, pos);
        assert(front.insert(pos, i).push(order.last()) =~= order.insert(pos, i));
    }
}

/// Inserting a position above all listed ones keeps the draw order and adds
/// exactly that position.
pub proof fn lemma_insert_keeps_order(order: Seq<usize>, ms: Seq<CompiledModelView>, i: usize)
    requires
        in_draw_order(ms, order, i as int),
    ensures
        in_draw_order(ms, insert_by_z(order, ms, i), i + 1),
        insert_by_z(order, ms, i).len() == order.len() + 1,
        forall|j: int|
            #![trigger lists(insert_by_z(order, ms, i), j)]
            #![trigger lists(order, j)]
            lists(insert_by_z(order, ms, i), j) <==> (lists(order, j) || j == i),
    decreases order.len(),
{
    let out = insert_by_z(order, ms, i);
    if order.len() == 0 {
        assert(out[0] == i);
        assert forall|j: int| lists(out, j) <==> (lists(order, j) || j == i) by {
            if j == i {
                assert(out[0] == j);
            }
        }
    } else if ms[order.last() as int].z <= ms[i as int].z {
        assert forall|a: int, b: int| 0 <= a < b < out.len() implies ({
            let x = #[trigger] out[a];
            let y = #[trigger] out[b];
            ms[x as int].z < ms[y as int].z || (ms[x as int].z == ms[y as int].z && x < y)
        }) by {
            if b < order.len() {
                assert(out[a] == order[a] && out[b] == order[b]);
            } else {
                assert(out[a] == order[a]);
                if a < order.len() - 1 {
                    let l = order[order.len() - 1];
                    assert(ms[order[a] as int].z <= ms[l as int].z);
                }
            }
        }
        assert forall|j: int| lists(out, j) <==> (lists(order, j) || j == i) by {
            if lists(out, j) {
                let k = choose|k: int| 0 <= k < out.len() && #[trigger] out[k] == j;
                if k < order.len() {
                    assert(order[k] == j);
                }
            }
            if lists(order, j) {
                let k = choose|k: int| 0 <= k < order.len() && #[trigger] order[k] == j;
                assert(out[k] == j);
            }
            if j == i {
                assert(out[order.len() as int] == j);
            }
        }
    } else {
        let front = order.drop_last();
        let last = order.last();
        assert forall|k: int| 0 <= k < front.len() implies (#[trigger] front[k]) < i by {
            assert(front[k] == order[k]);
        }
        assert forall|a: int, b: int| 0 <= a < b < front.len() implies ({
            let x = #[trigger] front[a];
            let y = #[trigger] front[b];
            ms[x as int].z < ms[y as int].z || (ms[x as int].z == ms[y as int].z && x < y)
        }) by {
            assert(front[a] == order[a] && front[b] == order[b]);
        }
        lemma_insert_keeps_order(front, ms, i);
        let mid = insert_by_z(front, ms, i);
        assert(out == mid.push(last));
        assert forall|k: int| 0 <= k < out.len() implies (#[trigger] out[k]) < i + 1 by {
            if k < mid.len() {
                assert(out[k] == mid[k]);
            } else {
                assert(out[k] == order[order.len() - 1]);
            }
        }
        assert forall|a: int, b: int| 0 <= a < b < out.len() implies ({
            let x = #[trigger] out[a];
            let y = #[trigger] out[b];
            ms[x as int].z < ms[y as int].z || (ms[x as int].z == ms[y as int].z && x < y)
        }) by {
            if b < mid.len() {
                assert(out[a] == mid[a] && out[b] == mid[b]);
            } else {
                assert(out[b] == last);
                assert(out[a] == mid[a]);
                assert(lists(mid, out[a] as int));
                if out[a] == i {
                } else {
                    assert(lists(front, out[a] as int));
                    let k = choose|k: int| 0 <= k < front.len() && #[trigger] front[k] == out[a];
                    assert(order[k] == out[a]);
                    assert(order[order.len() - 1] == last);
                }
            }
        }
        assert forall|j: int| lists(out, j) <==> (lists(order, j) || j == i) by {
            if lists(out, j) {
                let k = choose|k: int| 0 <= k < out.len() && #[trigger] out[k] == j;
                if k < mid.len() {
                    assert(mid[k] == j);
                    assert(lists(mid, j));
                    if j != i {
                        assert(lists(front, j));
                        let f = choose|f: int| 0 <= f < front.len() && #[trigger] front[f] == j;
                        assert(front[f] == order[f]);
                        assert(lists(order, j));
                    }
                } else {
                    assert(order[order.len() - 1] == j);
                }
            }
            if lists(order, j) {
                let k = choose|k: int| 0 <= k < order.len() && #[trigger] order[k] == j;
                if k < front.len() {
                    assert(front[k] == j);
                    assert(lists(front, j));
                    let f = choose|f: int| 0 <= f < mid.len() && #[trigger] mid[f] == j;
                    assert(out[f] == j);
                } else {
                    assert(out[mid.len() as int] == j);
                }
            }
            if j == i {
                assert(lists(mid, j));
                let f = choose|f: int| 0 <= f < mid.len() && #[trigger] mid[f] == j;
                assert(out[f] == j);
            }
        }
    }
}

/// Ordering: the draw order lists exactly the visible models, each once,
/// by ascending `z`, and models of equal `z` in insertion order.
pub proof fn lemma_draw_order(ms: Seq<CompiledModelView>, n: int)
    requires
        0 <= n <= ms.len(),
        n <= usize::MAX,
    ensures
        in_draw_order(ms, draw_order(ms, n), n),
        draw_order(ms, n).len() <= n,
        forall|j: int| #[trigger] lists(draw_order(ms, n), j) <==> (0 <= j < n && ms[j].visible),
    decreases n,
{
    if n > 0 {
        lemma_draw_order(ms, n - 1);
        let prev = draw_order(ms, n - 1);
        if ms[n - 1].visible {
            lemma_insert_keeps_order(prev, ms, (n - 1) as usize);
        } else {
            assert forall|k: int| 0 <= k < prev.len() implies (#[trigger] prev[k]) < n by {}
        }
        assert forall|j: int| lists(draw_order(ms, n), j) <==> (0 <= j < n && ms[j].visible) by {
            if lists(prev, j) {
                assert(0 <= j < n - 1);
            }
        }
    } else {
        assert forall|j: int| lists(draw_order(ms, n), j) <==> (0 <= j < n && ms[j].visible) by {}
    }
}

/// Visibility filter: a hidden model is not part of the draw order, so none
/// of its vertices is packed.
pub proof fn lemma_hidden_not_drawn(ms: Seq<CompiledModelView>, i: int)
    requires
        0 <= i < ms.len() <= usize::MAX,
        !ms[i].visible,
    ensures
        !lists(draw_order(ms, ms.len() as int), i),
{
    lemma_draw_order(ms, ms.len() as int);
}

/// Taking one more model of the order appends that model's vertices.
pub proof fn lemma_concat_step(ms: Seq<CompiledModelView>, order: Seq<usize>, k: int)
    requires
        0 <= k < order.len(),
    ensures
        concat_vertices(ms, order.take(k + 1)) == concat_vertices(ms, order.take(k))
            + ms[order[k] as int].vertices,
{
    assert(order.take(k + 1).drop_last() =~= order.take(k));
}

/// A prefix of the order never packs more vertices than the whole.
pub proof fn lemma_concat_grows(ms: Seq<CompiledModelView>, order: Seq<usize>, k: int)
    requires
        0 <= k <= order.len(),
    ensures
        concat_vertices(ms, order.take(k)).len() <= concat_vertices(ms, order).len(),
    decreases order.len() - k,
{
    if k < order.len() {
        lemma_concat_step(ms, order, k);
        lemma_concat_grows(ms, order, k + 1);
    } else {
        assert(order.take(k) =~= order);
    }
}

} // verus!
