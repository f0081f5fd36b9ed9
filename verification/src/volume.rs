//! Strut layouts of the dome volume animation: the struts that light in
//! each spoke and ring as the level rises from a set of starting joints.
use vstd::prelude::*;

use crate::outputs::DOME_STRUTS;
use crate::visualizers::push_unique_usize;

verus! {

/// Number of joints (points) of the dome's strut graph.
pub const VOLUME_POINTS: usize = 71;

/// Layers of the volume animation.
pub const VOLUME_ANIMATION_SIZE: usize = 4;

/// Each strut of the dome as the pair of joints it connects, by strut index.
pub const VOLUME_LINES: [(usize, usize); 190] = [
    (0, 1), (1, 2), (3, 2), (3, 4), (4, 5), (5, 6), (7, 6), (7, 8), (8, 9), (9, 10), (11, 10),
    (11, 12), (12, 13), (13, 14), (15, 14), (15, 16), (16, 17), (17, 18), (19, 18), (19, 0),
    (20, 21), (22, 21), (23, 22), (24, 23), (24, 25), (26, 25), (27, 26), (28, 27), (28, 29),
    (30, 29), (31, 30), (32, 31), (32, 33), (34, 33), (35, 34), (36, 35), (36, 37), (38, 37),
    (39, 38), (20, 39), (41, 40), (42, 41), (43, 42), (44, 43), (45, 44), (46, 45), (47, 46),
    (48, 47), (49, 48), (50, 49), (51, 50), (52, 51), (53, 52), (54, 53), (40, 54), (56, 55),
    (57, 56), (58, 57), (59, 58), (60, 59), (61, 60), (62, 61), (63, 62), (64, 63), (55, 64),
    (65, 66), (66, 67), (67, 68), (68, 69), (69, 65), (20, 0), (0, 21), (21, 1), (1, 22),
    (2, 22), (23, 2), (23, 3), (24, 3), (24, 4), (4, 25), (25, 5), (5, 26), (6, 26), (27, 6),
    (27, 7), (28, 7), (28, 8), (8, 29), (29, 9), (9, 30), (10, 30), (31, 10), (31, 11),
    (32, 11), (32, 12), (12, 33), (33, 13), (13, 34), (14, 34), (35, 14), (35, 15), (36, 15),
    (36, 16), (16, 37), (37, 17), (17, 38), (18, 38), (39, 18), (39, 19), (20, 19), (20, 40),
    (21, 40), (21, 41), (22, 41), (41, 23), (42, 23), (24, 42), (24, 43), (25, 43), (25, 44),
    (26, 44), (44, 27), (45, 27), (28, 45), (28, 46), (29, 46), (29, 47), (30, 47), (47, 31),
    (48, 31), (32, 48), (32, 49), (33, 49), (33, 50), (34, 50), (50, 35), (51, 35), (36, 51),
    (36, 52), (37, 52), (37, 53), (38, 53), (53, 39), (54, 39), (20, 54), (40, 55), (40, 56),
    (41, 56), (56, 42), (42, 57), (43, 57), (43, 58), (44, 58), (58, 45), (45, 59), (46, 59),
    (46, 60), (47, 60), (60, 48), (48, 61), (49, 61), (49, 62), (50, 62), (62, 51), (51, 63),
    (52, 63), (52, 64), (53, 64), (64, 54), (54, 55), (55, 65), (56, 65), (57, 65), (57, 66),
    (58, 66), (59, 66), (59, 67), (60, 67), (61, 67), (61, 68), (62, 68), (63, 68), (63, 69),
    (64, 69), (55, 69), (65, 70), (66, 70), (67, 70), (68, 70), (69, 70),
];

/// One strut of a layout, with the direction it is walked in.
#[derive(Clone, Copy, Debug, PartialEq, Eq, Structural)]
pub struct VolumeStrut {
    /// Strut index.
    pub index: usize,
    /// Whether the strut runs from its second joint to its first.
    pub reversed: bool,
}

/// A strut leaving a joint, with the joint at its other end.
#[derive(Clone, Copy, Debug, PartialEq, Eq, Structural)]
pub struct VolumeEdge {
    /// The joint at the far end.
    pub connected_point: usize,
    /// The strut, reversed when it is left from its second joint.
    pub strut: VolumeStrut,
}

/// Whether every strut joins two joints of the graph.
pub open spec fn lines_valid(lines: Seq<(usize, usize)>) -> bool {
    forall|i: int|
        0 <= i < lines.len() ==> #[trigger] lines[i].0 < VOLUME_POINTS && lines[i].1 < VOLUME_POINTS
}

/// The edges at joint `p` contributed by the first `n` struts, in strut
/// order: the forward edge of a strut that starts at `p`, then the reversed
/// edge of one that ends there.
pub open spec fn edges_at(lines: Seq<(usize, usize)>, p: int, n: int) -> Seq<VolumeEdge>
    decreases n,
{
    if n <= 0 || n > lines.len() {
        seq![]
    } else {
        let prev = edges_at(lines, p, n - 1);
        let a = lines[n - 1].0;
        let b = lines[n - 1].1;
        let forward = VolumeEdge {
            connected_point: b,
            strut: VolumeStrut { index: (n - 1) as usize, reversed: false },
        };
        let backward = VolumeEdge {
            connected_point: a,
            strut: VolumeStrut { index: (n - 1) as usize, reversed: true },
        };
        let with_forward = if a == p {
            prev.push(forward)
        } else {
            prev
        };
        if b == p {
            with_forward.push(backward)
        } else {
            with_forward
        }
    }
}

/// The edge dictionary of a strut table: the edges at each joint.
pub open spec fn edge_dictionary_spec(lines: Seq<(usize, usize)>) -> Seq<Seq<VolumeEdge>> {
    Seq::new(VOLUME_POINTS as nat, |p: int| edges_at(lines, p, lines.len() as int))
}

/// Whether every edge of a dictionary leads to one of its joints along a
/// strut of the dome.
pub open spec fn dictionary_valid(d: Seq<Seq<VolumeEdge>>) -> bool {
    forall|p: int, k: int|
        0 <= p < d.len() && 0 <= k < d[p].len() ==> (#[trigger] d[p][k]).connected_point < d.len()
            && d[p][k].strut.index < DOME_STRUTS
}

/// The view of a dictionary.
pub open spec fn dict_view(d: Seq<Vec<VolumeEdge>>) -> Seq<Seq<VolumeEdge>> {
    d.map_values(|v: Vec<VolumeEdge>| v@)
}

/// Whether the first `n` struts join two joints of the graph.
spec fn lines_below(lines: Seq<(usize, usize)>, n: nat) -> bool
    decreases n,
{
    if n == 0 {
        true
    } else {
        lines[n - 1].0 < VOLUME_POINTS && lines[n - 1].1 < VOLUME_POINTS && lines_below(
            lines,
            (n - 1) as nat,
        )
    }
}

proof fn lemma_lines_below(lines: Seq<(usize, usize)>, n: nat)
    requires
        lines_below(lines, n),
    ensures
        forall|i: int|
            0 <= i < n ==> #[trigger] lines[i].0 < VOLUME_POINTS && lines[i].1 < VOLUME_POINTS,
    decreases n,
{
    if n > 0 {
        lemma_lines_below(lines, (n - 1) as nat);
    }
}

proof fn lemma_lines_below_steps(lines: Seq<(usize, usize)>, k: nat)
    requires
        lines_below(lines, 0),
        forall|j: nat| j < 19 && #[trigger] lines_below(lines, 10 * j) ==> lines_below(lines, 10 * j + 10),
        k <= 19,
    ensures
        lines_below(lines, 10 * k),
    decreases k,
{
    if k > 0 {
        lemma_lines_below_steps(lines, (k - 1) as nat);
        assert(lines_below(lines, 10 * ((k - 1) as nat)));
        assert(10 * ((k - 1) as nat) + 10 == 10 * k);
    }
}

proof fn lemma_volume_lines_valid()
    ensures
        lines_valid(VOLUME_LINES@),
        VOLUME_LINES@.len() == DOME_STRUTS,
{
    let lines = VOLUME_LINES@;
    assert(lines_below(lines, 0));
    assert forall|k: nat| k < 19 && #[trigger] lines_below(lines, 10 * k) implies lines_below(
        lines,
        10 * k + 10,
    ) by {
        reveal_with_fuel(lines_below, 11);
    }
    lemma_lines_below_steps(lines, 19);
    lemma_lines_below(VOLUME_LINES@, 190);
}

proof fn lemma_edges_at_valid(lines: Seq<(usize, usize)>, p: int, n: int)
    requires
        lines_valid(lines),
        lines.len() <= DOME_STRUTS,
    ensures
        forall|k: int|
            0 <= k < edges_at(lines, p, n).len() ==> (#[trigger] edges_at(lines, p, n)[k]).connected_point
                < VOLUME_POINTS && edges_at(lines, p, n)[k].strut.index < DOME_STRUTS,
    decreases n,
{
    if n > 0 && n <= lines.len() {
        lemma_edges_at_valid(lines, p, n - 1);
        assert(lines[n - 1].0 < VOLUME_POINTS && lines[n - 1].1 < VOLUME_POINTS);
        let prev = edges_at(lines, p, n - 1);
        let cur = edges_at(lines, p, n);
        assert forall|k: int| 0 <= k < cur.len() implies (#[trigger] cur[k]).connected_point
            < VOLUME_POINTS && cur[k].strut.index < DOME_STRUTS by {
            if k < prev.len() {
                assert(cur[k] == prev[k]);
            }
        }
    }
}

/// The edges at one joint, in strut order.
fn edges_of_point(lines: &[(usize, usize)], p: usize) -> (r: Vec<VolumeEdge>)
    requires
        lines@.len() <= DOME_STRUTS,
    ensures
        r@ == edges_at(lines@, p as int, lines@.len() as int),
{
    let mut out: Vec<VolumeEdge> = Vec::new();
    let mut i: usize = 0;
    while i < lines.len()
        invariant
            i <= lines@.len() <= DOME_STRUTS,
            out@ == edges_at(lines@, p as int, i as int),
        decreases lines@.len() - i,
    {
        let (a, b) = lines[i];
        if a == p {
            out.push(
                VolumeEdge { connected_point: b, strut: VolumeStrut { index: i, reversed: false } },
            );
        }
        if b == p {
            out.push(
                VolumeEdge { connected_point: a, strut: VolumeStrut { index: i, reversed: true } },
            );
        }
        i = i + 1;
    }
    out
}

/// The edge dictionary of the dome: for each joint, the struts that leave
/// it and the joints they lead to.
pub fn volume_edge_dictionary() -> (r: Vec<Vec<VolumeEdge>>)
    ensures
        dict_view(r@) == edge_dictionary_spec(VOLUME_LINES@),
        dictionary_valid(dict_view(r@)),
{
    proof {
        lemma_volume_lines_valid();
    }
    let lines = VOLUME_LINES;
    let mut out: Vec<Vec<VolumeEdge>> = Vec::new();
    let mut p: usize = 0;
    while p < VOLUME_POINTS
        invariant
            p <= VOLUME_POINTS,
            lines@ == VOLUME_LINES@,
            lines_valid(lines@),
            lines@.len() == DOME_STRUTS,
            out@.len() == p,
            forall|q: int|
                0 <= q < p ==> (#[trigger] out@[q])@ == edges_at(lines@, q, lines@.len() as int),
        decreases VOLUME_POINTS - p,
    {
        let edges = edges_of_point(lines.as_slice(), p);
        out.push(edges);
        p = p + 1;
    }
    assert(dict_view(out@) == edge_dictionary_spec(VOLUME_LINES@));
    assert forall|q: int, k: int|
        0 <= q < dict_view(out@).len() && 0 <= k < dict_view(out@)[q].len() implies (
    #[trigger] dict_view(out@)[q][k]).connected_point < dict_view(out@).len() && dict_view(
        out@,
    )[q][k].strut.index < DOME_STRUTS by {
        lemma_edges_at_valid(lines@, q, lines@.len() as int);
        assert(dict_view(out@)[q] == edges_at(lines@, q, lines@.len() as int));
    }
    out
}

/// `s` with `v` appended unless a strut of the same index is already there.
pub open spec fn push_unique_strut_spec(s: Seq<VolumeStrut>, v: VolumeStrut) -> Seq<VolumeStrut> {
    if exists|k: int| 0 <= k < s.len() && (#[trigger] s[k]).index == v.index {
        s
    } else {
        s.push(v)
    }
}

/// `s` with `v` appended unless it is already there.
pub open spec fn push_unique_point(s: Seq<usize>, v: usize) -> Seq<usize> {
    if s.contains(v) {
        s
    } else {
        s.push(v)
    }
}

/// Append a strut unless one of the same index is already present.
pub fn push_unique_strut(values: &mut Vec<VolumeStrut>, value: VolumeStrut)
    ensures
        final(values)@ == push_unique_strut_spec(old(values)@, value),
{
    let mut i: usize = 0;
    while i < values.len()
        invariant
            i <= values@.len(),
            values@ == old(values)@,
            forall|k: int| 0 <= k < i ==> (#[trigger] values@[k]).index != value.index,
        decreases values@.len() - i,
    {
        if values[i].index == value.index {
            assert(values@[i as int].index == value.index);
            return ;
        }
        i = i + 1;
    }
    values.push(value);
}

/// Whether `p` is one of the points of `g`.
fn contains_point(g: &Vec<usize>, p: usize) -> (r: bool)
    ensures
        r == g@.contains(p),
{
    let mut i: usize = 0;
    while i < g.len()
        invariant
            i <= g@.len(),
            forall|k: int| 0 <= k < i ==> g@[k] != p,
        decreases g@.len() - i,
    {
        if g[i] == p {
            assert(g@[i as int] == p);
            return true;
        }
        i = i + 1;
    }
    false
}

/// State of a spoke pass: the strut table, the layer's struts and the
/// joints reached.
pub type SpokeState = (Seq<bool>, Seq<VolumeStrut>, Seq<usize>);

/// One edge of a spoke pass: an unused strut is marked used, joins the
/// layer, and its far joint is reached.
pub open spec fn spoke_edge(st: SpokeState, e: VolumeEdge) -> SpokeState {
    if st.0[e.strut.index as int] {
        st
    } else {
        (
            st.0.update(e.strut.index as int, true),
            push_unique_strut_spec(st.1, e.strut),
            push_unique_point(st.2, e.connected_point),
        )
    }
}

/// A spoke pass over the edges of one joint, in order.
pub open spec fn spoke_edges(st: SpokeState, es: Seq<VolumeEdge>) -> SpokeState
    decreases es.len(),
{
    if es.len() == 0 {
        st
    } else {
        spoke_edge(spoke_edges(st, es.drop_last()), es.last())
    }
}

/// A spoke pass over the joints of one group, in order.
pub open spec fn spoke_points(st: SpokeState, d: Seq<Seq<VolumeEdge>>, g: Seq<usize>) -> SpokeState
    decreases g.len(),
{
    if g.len() == 0 {
        st
    } else {
        spoke_edges(spoke_points(st, d, g.drop_last()), d[g.last() as int])
    }
}

/// A spoke pass over all groups: the strut table after it, the struts of
/// the layer, and the joints each group reached.
pub open spec fn spoke_groups(used: Seq<bool>, d: Seq<Seq<VolumeEdge>>, groups: Seq<Seq<usize>>) -> (
    Seq<bool>,
    Seq<VolumeStrut>,
    Seq<Seq<usize>>,
)
    decreases groups.len(),
{
    if groups.len() == 0 {
        (used, seq![], seq![])
    } else {
        let prev = spoke_groups(used, d, groups.drop_last());
        let st = spoke_points((prev.0, prev.1, seq![]), d, groups.last());
        (st.0, st.1, prev.2.push(st.2))
    }
}

/// Whether every joint of `g` is a joint of a dictionary of `n` joints.
pub open spec fn points_below(g: Seq<usize>, n: int) -> bool {
    forall|k: int| 0 <= k < g.len() ==> #[trigger] g[k] < n
}

/// Whether every joint of every group is below `n`.
pub open spec fn groups_below(groups: Seq<Seq<usize>>, n: int) -> bool {
    forall|k: int| 0 <= k < groups.len() ==> points_below(#[trigger] groups[k], n)
}

/// The view of a list of groups.
pub open spec fn groups_view(groups: Seq<Vec<usize>>) -> Seq<Seq<usize>> {
    groups.map_values(|g: Vec<usize>| g@)
}

/// Whether every strut of `s` is a strut of the dome.
pub open spec fn struts_below(s: Seq<VolumeStrut>) -> bool {
    forall|k: int| 0 <= k < s.len() ==> (#[trigger] s[k]).index < DOME_STRUTS
}

fn spoke_edges_exec(
    used: &mut Vec<bool>,
    layer: &mut Vec<VolumeStrut>,
    points: &mut Vec<usize>,
    es: &Vec<VolumeEdge>,
    joints: usize,
)
    requires
        old(used)@.len() == DOME_STRUTS,
        forall|k: int|
            0 <= k < es@.len() ==> (#[trigger] es@[k]).strut.index < DOME_STRUTS
                && es@[k].connected_point < joints,
        points_below(old(points)@, joints as int),
        struts_below(old(layer)@),
    ensures
        (final(used)@, final(layer)@, final(points)@) == spoke_edges(
            (old(used)@, old(layer)@, old(points)@),
            es@,
        ),
        final(used)@.len() == DOME_STRUTS,
        points_below(final(points)@, joints as int),
        struts_below(final(layer)@),
{
    let ghost st0: SpokeState = (used@, layer@, points@);
    let mut i: usize = 0;
    while i < es.len()
        invariant
            i <= es@.len(),
            used@.len() == DOME_STRUTS,
            forall|k: int|
                0 <= k < es@.len() ==> (#[trigger] es@[k]).strut.index < DOME_STRUTS
                    && es@[k].connected_point < joints,
            points_below(points@, joints as int),
            struts_below(layer@),
            (used@, layer@, points@) == spoke_edges(st0, es@.subrange(0, i as int)),
        decreases es@.len() - i,
    {
        let e = es[i];
        assert(es@.subrange(0, i + 1).drop_last() == es@.subrange(0, i as int));
        assert(es@.subrange(0, i + 1).last() == e);
        if !used[e.strut.index] {
            used.set(e.strut.index, true);
            push_unique_strut(layer, e.strut);
            push_unique_usize(points, e.connected_point);
        }
        i = i + 1;
    }
    assert(es@.subrange(0, es@.len() as int) == es@);
}

fn spoke_points_exec(
    used: &mut Vec<bool>,
    layer: &mut Vec<VolumeStrut>,
    points: &mut Vec<usize>,
    d: &Vec<Vec<VolumeEdge>>,
    g: &Vec<usize>,
)
    requires
        old(used)@.len() == DOME_STRUTS,
        dictionary_valid(dict_view(d@)),
        points_below(g@, d@.len() as int),
        points_below(old(points)@, d@.len() as int),
        struts_below(old(layer)@),
    ensures
        struts_below(final(layer)@),
        (final(used)@, final(layer)@, final(points)@) == spoke_points(
            (old(used)@, old(layer)@, old(points)@),
            dict_view(d@),
            g@,
        ),
        final(used)@.len() == DOME_STRUTS,
        points_below(final(points)@, d@.len() as int),
{
    let ghost st0: SpokeState = (used@, layer@, points@);
    let ghost dv = dict_view(d@);
    let mut i: usize = 0;
    while i < g.len()
        invariant
            i <= g@.len(),
            dv == dict_view(d@),
            used@.len() == DOME_STRUTS,
            dictionary_valid(dv),
            points_below(g@, d@.len() as int),
            points_below(points@, d@.len() as int),
            struts_below(layer@),
            (used@, layer@, points@) == spoke_points(st0, dv, g@.subrange(0, i as int)),
        decreases g@.len() - i,
    {
        let p = g[i];
        assert(g@[i as int] < d@.len());
        assert(g@.subrange(0, i + 1).drop_last() == g@.subrange(0, i as int));
        assert(g@.subrange(0, i + 1).last() == p);
        assert(dv[p as int] == d@[p as int]@);
        assert forall|k: int| 0 <= k < d@[p as int]@.len() implies (#[trigger] d@[p as int]@[k]).strut.index
            < DOME_STRUTS && d@[p as int]@[k].connected_point < d@.len() by {
            assert(dv[p as int][k] == d@[p as int]@[k]);
        }
        spoke_edges_exec(used, layer, points, &d[p], d.len());
        i = i + 1;
    }
    assert(g@.subrange(0, g@.len() as int) == g@);
}

/// One spoke pass: the struts of the layer and the joints each group reached.
fn spoke_pass(used: &mut Vec<bool>, d: &Vec<Vec<VolumeEdge>>, groups: &Vec<Vec<usize>>) -> (r: (
    Vec<VolumeStrut>,
    Vec<Vec<usize>>,
))
    requires
        old(used)@.len() == DOME_STRUTS,
        dictionary_valid(dict_view(d@)),
        groups_below(groups_view(groups@), d@.len() as int),
    ensures
        (final(used)@, r.0@, groups_view(r.1@)) == spoke_groups(
            old(used)@,
            dict_view(d@),
            groups_view(groups@),
        ),
        final(used)@.len() == DOME_STRUTS,
        groups_below(groups_view(r.1@), d@.len() as int),
        struts_below(r.0@),
{
    let ghost used0 = used@;
    let ghost dv = dict_view(d@);
    let ghost gv = groups_view(groups@);
    let mut layer: Vec<VolumeStrut> = Vec::new();
    let mut next: Vec<Vec<usize>> = Vec::new();
    let mut i: usize = 0;
    while i < groups.len()
        invariant
            i <= groups@.len(),
            dv == dict_view(d@),
            gv == groups_view(groups@),
            used@.len() == DOME_STRUTS,
            dictionary_valid(dv),
            groups_below(gv, d@.len() as int),
            groups_below(groups_view(next@), d@.len() as int),
            struts_below(layer@),
            (used@, layer@, groups_view(next@)) == spoke_groups(used0, dv, gv.subrange(0, i as int)),
        decreases groups@.len() - i,
    {
        assert(gv.subrange(0, i + 1).drop_last() == gv.subrange(0, i as int));
        assert(gv.subrange(0, i + 1).last() == groups@[i as int]@);
        assert(points_below(gv[i as int], d@.len() as int));
        let mut points: Vec<usize> = Vec::new();
        spoke_points_exec(used, &mut layer, &mut points, d, &groups[i]);
        let ghost before = next@;
        next.push(points);
        assert(groups_view(next@) == groups_view(before).push(points@));
        i = i + 1;
    }
    assert(gv.subrange(0, gv.len() as int) == gv);
    (layer, next)
}

/// Number of edges of `es` that lead to a joint of `g`.
pub open spec fn connected_count(es: Seq<VolumeEdge>, g: Seq<usize>) -> nat
    decreases es.len(),
{
    if es.len() == 0 {
        0
    } else {
        connected_count(es.drop_last(), g) + if g.contains(es.last().connected_point) {
            1nat
        } else {
            0nat
        }
    }
}

/// The first joint of `g`, from position `k` on, with exactly one edge into `g`.
pub open spec fn circle_start_from(d: Seq<Seq<VolumeEdge>>, g: Seq<usize>, k: int) -> Option<usize>
    decreases g.len() - k,
{
    if k < 0 || k >= g.len() {
        None
    } else if connected_count(d[g[k] as int], g) == 1 {
        Some(g[k])
    } else {
        circle_start_from(d, g, k + 1)
    }
}

/// Where a ring walk over `g` starts: at an end of the ring's open chain
/// (a joint with one neighbor in the group), else at the group's first joint.
pub open spec fn circle_start(d: Seq<Seq<VolumeEdge>>, g: Seq<usize>) -> usize {
    match circle_start_from(d, g, 0) {
        Some(p) => p,
        None => g[0],
    }
}

/// The first edge of `es`, from position `k` on, that leads into `g` along
/// a strut of the table not yet used.
pub open spec fn open_edge_from(es: Seq<VolumeEdge>, g: Seq<usize>, used: Seq<bool>, k: int) -> Option<
    VolumeEdge,
>
    decreases es.len() - k,
{
    if k < 0 || k >= es.len() {
        None
    } else if g.contains(es[k].connected_point) && es[k].strut.index < used.len()
        && !used[es[k].strut.index as int] {
        Some(es[k])
    } else {
        open_edge_from(es, g, used, k + 1)
    }
}

/// `s` without any occurrence of `x`, in order.
pub open spec fn without_point(s: Seq<usize>, x: usize) -> Seq<usize>
    decreases s.len(),
{
    if s.len() == 0 {
        s
    } else if s.last() == x {
        without_point(s.drop_last(), x)
    } else {
        without_point(s.drop_last(), x).push(s.last())
    }
}

/// Number of struts of the table not yet used.
pub open spec fn unused_count(u: Seq<bool>) -> nat
    decreases u.len(),
{
    if u.len() == 0 {
        0
    } else {
        unused_count(u.drop_last()) + if u.last() {
            0nat
        } else {
            1nat
        }
    }
}

pub proof fn lemma_unused_count_update(u: Seq<bool>, i: int)
    requires
        0 <= i < u.len(),
        !u[i],
    ensures
        unused_count(u.update(i, true)) + 1 == unused_count(u),
    decreases u.len(),
{
    let v = u.update(i, true);
    if i == u.len() - 1 {
        assert(v.drop_last() == u.drop_last());
    } else {
        assert(v.drop_last() == u.drop_last().update(i, true));
        lemma_unused_count_update(u.drop_last(), i);
    }
}

pub proof fn lemma_open_edge(es: Seq<VolumeEdge>, g: Seq<usize>, used: Seq<bool>, k: int)
    ensures
        open_edge_from(es, g, used, k) matches Some(e) ==> {
            &&& g.contains(e.connected_point)
            &&& e.strut.index < used.len()
            &&& !used[e.strut.index as int]
            &&& exists|j: int| 0 <= j < es.len() && es[j] == e
        },
    decreases es.len() - k,
{
    if 0 <= k < es.len() {
        lemma_open_edge(es, g, used, k + 1);
    }
}

/// State of a ring walk: the strut table, the layer's struts, the ring's
/// struts and the joints of the group not yet left.
pub type WalkState = (Seq<bool>, Seq<VolumeStrut>, Seq<VolumeStrut>, Seq<usize>);

/// A ring walk over group `g` from joint `current`: take the first unused
/// strut into the group, mark it and add it to the layer and the ring,
/// leave the current joint, and go on from the far joint while it is one
/// not yet left.
pub open spec fn circle_walk(d: Seq<Seq<VolumeEdge>>, g: Seq<usize>, st: WalkState, current: usize) -> WalkState
    decreases unused_count(st.0),
{
    let left = without_point(st.3, current);
    match open_edge_from(d[current as int], g, st.0, 0) {
        None => (st.0, st.1, st.2, left),
        Some(e) => {
            let used = st.0.update(e.strut.index as int, true);
            let layer = push_unique_strut_spec(st.1, e.strut);
            let ring = push_unique_strut_spec(st.2, e.strut);
            if st.3.contains(e.connected_point) {
                proof {
                    lemma_open_edge(d[current as int], g, st.0, 0);
                    lemma_unused_count_update(st.0, e.strut.index as int);
                }
                circle_walk(d, g, (used, layer, ring, left), e.connected_point)
            } else {
                (used, layer, ring, left)
            }
        },
    }
}

/// A ring pass over all groups: the strut table after it, the struts of
/// the layer, and each group's ring (empty for an empty group).
pub open spec fn circle_groups(d: Seq<Seq<VolumeEdge>>, used: Seq<bool>, groups: Seq<Seq<usize>>) -> (
    Seq<bool>,
    Seq<VolumeStrut>,
    Seq<Seq<VolumeStrut>>,
)
    decreases groups.len(),
{
    if groups.len() == 0 {
        (used, seq![], seq![])
    } else {
        let prev = circle_groups(d, used, groups.drop_last());
        let g = groups.last();
        if g.len() == 0 {
            (prev.0, prev.1, prev.2.push(seq![]))
        } else {
            let w = circle_walk(d, g, (prev.0, prev.1, seq![], g), circle_start(d, g));
            (w.0, w.1, prev.2.push(w.2))
        }
    }
}

fn connected_count_exec(es: &Vec<VolumeEdge>, g: &Vec<usize>) -> (r: usize)
    ensures
        r == connected_count(es@, g@),
{
    let mut count: usize = 0;
    let mut i: usize = 0;
    while i < es.len()
        invariant
            i <= es@.len(),
            count == connected_count(es@.subrange(0, i as int), g@),
            count <= i,
        decreases es@.len() - i,
    {
        assert(es@.subrange(0, i + 1).drop_last() == es@.subrange(0, i as int));
        if contains_point(g, es[i].connected_point) {
            count = count + 1;
        }
        i = i + 1;
    }
    assert(es@.subrange(0, es@.len() as int) == es@);
    count
}

fn circle_start_exec(d: &Vec<Vec<VolumeEdge>>, g: &Vec<usize>) -> (r: usize)
    requires
        g@.len() > 0,
        points_below(g@, d@.len() as int),
    ensures
        r == circle_start(dict_view(d@), g@),
        r < d@.len(),
{
    let ghost dv = dict_view(d@);
    let mut i: usize = 0;
    while i < g.len()
        invariant
            i <= g@.len(),
            dv == dict_view(d@),
            points_below(g@, d@.len() as int),
            circle_start_from(dv, g@, 0) == circle_start_from(dv, g@, i as int),
        decreases g@.len() - i,
    {
        let p = g[i];
        assert(p < d@.len());
        assert(dv[p as int] == d@[p as int]@);
        if connected_count_exec(&d[p], g) == 1 {
            return p;
        }
        i = i + 1;
    }
    assert(g@[0] < d@.len());
    g[0]
}

fn open_edge_exec(es: &Vec<VolumeEdge>, g: &Vec<usize>, used: &Vec<bool>) -> (r: Option<VolumeEdge>)
    ensures
        r == open_edge_from(es@, g@, used@, 0),
{
    let mut i: usize = 0;
    while i < es.len()
        invariant
            i <= es@.len(),
            open_edge_from(es@, g@, used@, 0) == open_edge_from(es@, g@, used@, i as int),
        decreases es@.len() - i,
    {
        let e = es[i];
        if contains_point(g, e.connected_point) && e.strut.index < used.len()
            && !used[e.strut.index] {
            return Some(e);
        }
        i = i + 1;
    }
    None
}

fn without_point_exec(s: &Vec<usize>, x: usize) -> (r: Vec<usize>)
    ensures
        r@ == without_point(s@, x),
{
    let mut out: Vec<usize> = Vec::new();
    let mut i: usize = 0;
    while i < s.len()
        invariant
            i <= s@.len(),
            out@ == without_point(s@.subrange(0, i as int), x),
        decreases s@.len() - i,
    {
        assert(s@.subrange(0, i + 1).drop_last() == s@.subrange(0, i as int));
        if s[i] != x {
            out.push(s[i]);
        }
        i = i + 1;
    }
    assert(s@.subrange(0, s@.len() as int) == s@);
    out
}

fn circle_walk_exec(
    used: &mut Vec<bool>,
    layer: &mut Vec<VolumeStrut>,
    ring: &mut Vec<VolumeStrut>,
    d: &Vec<Vec<VolumeEdge>>,
    g: &Vec<usize>,
    start: usize,
)
    requires
        old(used)@.len() == DOME_STRUTS,
        dictionary_valid(dict_view(d@)),
        start < d@.len(),
        struts_below(old(layer)@),
        struts_below(old(ring)@),
    ensures
        struts_below(final(layer)@),
        struts_below(final(ring)@),
        ({
            let w = circle_walk(dict_view(d@), g@, (old(used)@, old(layer)@, old(ring)@, g@), start);
            final(used)@ == w.0 && final(layer)@ == w.1 && final(ring)@ == w.2
        }),
        final(used)@.len() == DOME_STRUTS,
{
    let ghost dv = dict_view(d@);
    let ghost target = circle_walk(dv, g@, (used@, layer@, ring@, g@), start);
    let mut copy: Vec<usize> = Vec::new();
    let mut j: usize = 0;
    while j < g.len()
        invariant
            j <= g@.len(),
            copy@ == g@.subrange(0, j as int),
        decreases g@.len() - j,
    {
        copy.push(g[j]);
        assert(g@.subrange(0, j + 1) == g@.subrange(0, j as int).push(g@[j as int]));
        j = j + 1;
    }
    assert(g@.subrange(0, g@.len() as int) == g@);
    let mut left = copy;
    let mut current = start;
    loop
        invariant_except_break
            target == circle_walk(dv, g@, (used@, layer@, ring@, left@), current),
            current < d@.len(),
        invariant
            dv == dict_view(d@),
            dictionary_valid(dv),
            used@.len() == DOME_STRUTS,
            struts_below(layer@),
            struts_below(ring@),
        ensures
            target.0 == used@ && target.1 == layer@ && target.2 == ring@,
        decreases unused_count(used@),
    {
        assert(dv[current as int] == d@[current as int]@);
        let found = open_edge_exec(&d[current], g, used);
        let next_left = without_point_exec(&left, current);
        match found {
            None => {
                break ;
            },
            Some(e) => {
                proof {
                    lemma_open_edge(dv[current as int], g@, used@, 0);
                    lemma_unused_count_update(used@, e.strut.index as int);
                    let j = choose|j: int| 0 <= j < dv[current as int].len() && dv[current as int][j] == e;
                    assert(dv[current as int][j].connected_point < dv.len());
                    assert(dv[current as int][j].strut.index < DOME_STRUTS);
                }
                used.set(e.strut.index, true);
                push_unique_strut(layer, e.strut);
                push_unique_strut(ring, e.strut);
                let go_on = contains_point(&left, e.connected_point);
                left = next_left;
                if go_on {
                    current = e.connected_point;
                } else {
                    break ;
                }
            },
        }
    }
}

/// One segment of a strut layout: the struts that light together.
#[derive(Clone, Debug)]
pub struct VolumeStrutLayoutSegment {
    /// The segment's struts, in lighting order.
    pub struts: Vec<VolumeStrut>,
}

/// The struts of each segment.
pub open spec fn segment_lists(v: Seq<VolumeStrutLayoutSegment>) -> Seq<Seq<VolumeStrut>> {
    v.map_values(|s: VolumeStrutLayoutSegment| s.struts@)
}

/// Whether every strut of every segment is a strut of the dome.
pub open spec fn segments_below(v: Seq<Seq<VolumeStrut>>) -> bool {
    forall|k: int| 0 <= k < v.len() ==> struts_below(#[trigger] v[k])
}

proof fn lemma_segments_below_push(v: Seq<Seq<VolumeStrut>>, x: Seq<VolumeStrut>)
    requires
        segments_below(v),
        struts_below(x),
    ensures
        segments_below(v.push(x)),
{
    assert forall|k: int| 0 <= k < v.push(x).len() implies struts_below(#[trigger] v.push(x)[k]) by {
        if k < v.len() {
            assert(v.push(x)[k] == v[k]);
        }
    }
}

/// One ring pass: the struts of the layer and each group's ring.
fn circle_pass(used: &mut Vec<bool>, d: &Vec<Vec<VolumeEdge>>, groups: &Vec<Vec<usize>>) -> (r: (
    Vec<VolumeStrut>,
    Vec<VolumeStrutLayoutSegment>,
))
    requires
        old(used)@.len() == DOME_STRUTS,
        dictionary_valid(dict_view(d@)),
        groups_below(groups_view(groups@), d@.len() as int),
    ensures
        (final(used)@, r.0@, segment_lists(r.1@)) == circle_groups(
            dict_view(d@),
            old(used)@,
            groups_view(groups@),
        ),
        final(used)@.len() == DOME_STRUTS,
        struts_below(r.0@),
        segments_below(segment_lists(r.1@)),
{
    let ghost used0 = used@;
    let ghost dv = dict_view(d@);
    let ghost gv = groups_view(groups@);
    let mut layer: Vec<VolumeStrut> = Vec::new();
    let mut rings: Vec<VolumeStrutLayoutSegment> = Vec::new();
    let mut i: usize = 0;
    while i < groups.len()
        invariant
            i <= groups@.len(),
            dv == dict_view(d@),
            gv == groups_view(groups@),
            used@.len() == DOME_STRUTS,
            dictionary_valid(dv),
            groups_below(gv, d@.len() as int),
            struts_below(layer@),
            segments_below(segment_lists(rings@)),
            rings@.len() == i,
            (used@, layer@, segment_lists(rings@)) == circle_groups(dv, used0, gv.subrange(0, i as int)),
        decreases groups@.len() - i,
    {
        assert(gv.subrange(0, i + 1).drop_last() == gv.subrange(0, i as int));
        assert(gv.subrange(0, i + 1).last() == groups@[i as int]@);
        assert(points_below(gv[i as int], d@.len() as int));
        let ghost before = rings@;
        if groups[i].len() == 0 {
            rings.push(VolumeStrutLayoutSegment { struts: Vec::new() });
        } else {
            let start = circle_start_exec(d, &groups[i]);
            let mut ring: Vec<VolumeStrut> = Vec::new();
            circle_walk_exec(used, &mut layer, &mut ring, d, &groups[i], start);
            rings.push(VolumeStrutLayoutSegment { struts: ring });
        }
        assert(segment_lists(rings@) == segment_lists(before).push(rings@[i as int].struts@));
        proof {
            lemma_segments_below_push(segment_lists(before), rings@[i as int].struts@);
        }
        i = i + 1;
    }
    assert(gv.subrange(0, gv.len() as int) == gv);
    (layer, rings)
}

/// The layers of a layout grown from `groups` for `left` more layers:
/// a spoke layer, then a ring layer over the joints it reached, and so on.
/// The first list holds each layer's struts; the second each group's ring
/// of every ring layer.
pub open spec fn layers_spec(
    d: Seq<Seq<VolumeEdge>>,
    used: Seq<bool>,
    groups: Seq<Seq<usize>>,
    left: nat,
) -> (Seq<Seq<VolumeStrut>>, Seq<Seq<VolumeStrut>>)
    decreases left,
{
    if left == 0 {
        (seq![], seq![])
    } else {
        let spokes = spoke_groups(used, d, groups);
        if left == 1 {
            (seq![spokes.1], seq![])
        } else {
            let rings = circle_groups(d, spokes.0, spokes.2);
            let rest = layers_spec(d, rings.0, spokes.2, (left - 2) as nat);
            (seq![spokes.1, rings.1] + rest.0, rings.2 + rest.1)
        }
    }
}

/// A strut table with no strut used.
pub open spec fn unused_table() -> Seq<bool> {
    Seq::new(DOME_STRUTS as nat, |i: int| false)
}

/// One group per starting joint.
pub open spec fn singleton_groups(points: Seq<usize>) -> Seq<Seq<usize>> {
    points.map_values(|p: usize| seq![p])
}

fn layer_loop(d: &Vec<Vec<VolumeEdge>>, starting_points: &[usize], num_layers: usize) -> (r: (
    Vec<VolumeStrutLayoutSegment>,
    Vec<VolumeStrutLayoutSegment>,
))
    requires
        dictionary_valid(dict_view(d@)),
        points_below(starting_points@, d@.len() as int),
    ensures
        (segment_lists(r.0@), segment_lists(r.1@)) == layers_spec(
            dict_view(d@),
            unused_table(),
            singleton_groups(starting_points@),
            num_layers as nat,
        ),
        segments_below(segment_lists(r.0@)),
        segments_below(segment_lists(r.1@)),
{
    let ghost dv = dict_view(d@);
    let mut used: Vec<bool> = Vec::new();
    let mut u: usize = 0;
    while u < DOME_STRUTS
        invariant
            u <= DOME_STRUTS,
            used@ == Seq::new(u as nat, |i: int| false),
        decreases DOME_STRUTS - u,
    {
        used.push(false);
        u = u + 1;
    }
    assert(used@ == unused_table());
    let mut cur: Vec<Vec<usize>> = Vec::new();
    let mut s: usize = 0;
    while s < starting_points.len()
        invariant
            s <= starting_points@.len(),
            points_below(starting_points@, d@.len() as int),
            groups_view(cur@) == singleton_groups(starting_points@.subrange(0, s as int)),
            groups_below(groups_view(cur@), d@.len() as int),
        decreases starting_points@.len() - s,
    {
        let ghost before = cur@;
        let p = starting_points[s];
        let g: Vec<usize> = vec![p];
        assert(g@ == seq![p]);
        cur.push(g);
        assert(groups_view(cur@) == groups_view(before).push(seq![p]));
        assert(singleton_groups(starting_points@.subrange(0, s + 1)) == singleton_groups(
            starting_points@.subrange(0, s as int),
        ).push(seq![p]));
        s = s + 1;
    }
    assert(starting_points@.subrange(0, starting_points@.len() as int) == starting_points@);
    let ghost target = layers_spec(dv, used@, groups_view(cur@), num_layers as nat);
    let mut segments: Vec<VolumeStrutLayoutSegment> = Vec::new();
    let mut rings: Vec<VolumeStrutLayoutSegment> = Vec::new();
    let mut left = num_layers;
    while left > 0
        invariant
            dv == dict_view(d@),
            dictionary_valid(dv),
            used@.len() == DOME_STRUTS,
            groups_below(groups_view(cur@), d@.len() as int),
            segments_below(segment_lists(segments@)),
            segments_below(segment_lists(rings@)),
            target.0 == segment_lists(segments@) + layers_spec(dv, used@, groups_view(cur@), left as nat).0,
            target.1 == segment_lists(rings@) + layers_spec(dv, used@, groups_view(cur@), left as nat).1,
        decreases left,
    {
        let ghost rest = layers_spec(dv, used@, groups_view(cur@), left as nat);
        let ghost segs0 = segment_lists(segments@);
        let ghost rings0 = segment_lists(rings@);
        let (layer1, next) = spoke_pass(&mut used, d, &cur);
        segments.push(VolumeStrutLayoutSegment { struts: layer1 });
        assert(segment_lists(segments@) == segs0.push(layer1@));
        proof {
            lemma_segments_below_push(segs0, layer1@);
        }
        left = left - 1;
        if left == 0 {
            assert(rest.0 == seq![layer1@]);
            assert(target.0 == segment_lists(segments@) + layers_spec(dv, used@, groups_view(next@), 0).0);
            assert(target.1 == segment_lists(rings@) + layers_spec(dv, used@, groups_view(next@), 0).1);
            cur = next;
        } else {
            cur = next;
            let (layer2, more) = circle_pass(&mut used, d, &cur);
            let ghost segs1 = segment_lists(segments@);
            segments.push(VolumeStrutLayoutSegment { struts: layer2 });
            assert(segment_lists(segments@) == segs1.push(layer2@));
            proof {
                lemma_segments_below_push(segs1, layer2@);
            }
            let ghost rings_before = rings@;
            let mut k: usize = 0;
            let mut more = more;
            let ghost more_lists = segment_lists(more@);
            let mut taken: Vec<VolumeStrutLayoutSegment> = Vec::new();
            while k < more.len()
                invariant
                    k <= more@.len(),
                    segment_lists(more@) == more_lists,
                    segment_lists(rings@) == segment_lists(rings_before) + more_lists.subrange(0, k as int),
                    segments_below(segment_lists(rings@)),
                    segments_below(more_lists),
                decreases more@.len() - k,
            {
                let ghost before = rings@;
                let seg = VolumeStrutLayoutSegment { struts: slice_struts(&more[k].struts) };
                rings.push(seg);
                assert(segment_lists(rings@) == segment_lists(before).push(more_lists[k as int]));
                proof {
                    lemma_segments_below_push(segment_lists(before), more_lists[k as int]);
                }
                assert(more_lists.subrange(0, k + 1) == more_lists.subrange(0, k as int).push(more_lists[k as int]));
                assert(struts_below(more_lists[k as int]));
                k = k + 1;
            }
            assert(more_lists.subrange(0, more_lists.len() as int) == more_lists);
            left = left - 1;
            assert(segs0 + rest.0 == segment_lists(segments@) + layers_spec(dv, used@, groups_view(cur@), left as nat).0);
            assert(rings0 + rest.1 == segment_lists(rings@) + layers_spec(dv, used@, groups_view(cur@), left as nat).1);
        }
    }
    assert(segment_lists(segments@) + seq![] == segment_lists(segments@));
    assert(segment_lists(rings@) + seq![] == segment_lists(rings@));
    (segments, rings)
}

fn slice_struts(s: &Vec<VolumeStrut>) -> (r: Vec<VolumeStrut>)
    ensures
        r@ == s@,
{
    let mut out: Vec<VolumeStrut> = Vec::new();
    let mut i: usize = 0;
    while i < s.len()
        invariant
            i <= s@.len(),
            out@ == s@.subrange(0, i as int),
        decreases s@.len() - i,
    {
        out.push(s[i]);
        assert(s@.subrange(0, i + 1) == s@.subrange(0, i as int).push(s@[i as int]));
        i = i + 1;
    }
    assert(s@.subrange(0, s@.len() as int) == s@);
    out
}

/// Whether a strut of index `i` is among `s`.
pub open spec fn holds_index(s: Seq<VolumeStrut>, i: int) -> bool {
    exists|k: int| 0 <= k < s.len() && (#[trigger] s[k]).index == i
}

/// The last segment that holds a strut of index `i`.
pub open spec fn last_holding(segs: Seq<Seq<VolumeStrut>>, i: int) -> Option<usize>
    decreases segs.len(),
{
    if segs.len() == 0 {
        None
    } else if holds_index(segs.last(), i) {
        Some((segs.len() - 1) as usize)
    } else {
        last_holding(segs.drop_last(), i)
    }
}

/// Segments of struts, with the segment of each strut of the dome.
#[derive(Clone, Debug)]
pub struct VolumeStrutLayout {
    /// The segments, in lighting order.
    pub segments: Vec<VolumeStrutLayoutSegment>,
    /// For each strut of the dome, the last segment that holds it.
    pub strut_to_segment: Vec<Option<usize>>,
}

impl VolumeStrutLayout {
    /// The index table agrees with the segments: each strut of the dome is
    /// mapped to the last segment that holds it.
    pub open spec fn wf(&self) -> bool {
        &&& self.strut_to_segment@.len() == DOME_STRUTS
        &&& forall|i: int|
            0 <= i < DOME_STRUTS ==> #[trigger] self.strut_to_segment@[i] == last_holding(
                segment_lists(self.segments@),
                i,
            )
    }

    /// A layout of the given segments.
    pub fn new(segments: Vec<VolumeStrutLayoutSegment>) -> (r: Self)
        requires
            segments_below(segment_lists(segments@)),
        ensures
            r.wf(),
            r.segments@ == segments@,
    {
        let ghost segs = segment_lists(segments@);
        let mut table: Vec<Option<usize>> = Vec::new();
        let mut u: usize = 0;
        while u < DOME_STRUTS
            invariant
                u <= DOME_STRUTS,
                table@ == Seq::new(u as nat, |i: int| None::<usize>),
            decreases DOME_STRUTS - u,
        {
            table.push(None);
            u = u + 1;
        }
        let mut k: usize = 0;
        while k < segments.len()
            invariant
                k <= segments@.len(),
                segs == segment_lists(segments@),
                segments_below(segs),
                table@.len() == DOME_STRUTS,
                forall|i: int|
                    0 <= i < DOME_STRUTS ==> #[trigger] table@[i] == last_holding(
                        segs.subrange(0, k as int),
                        i,
                    ),
            decreases segments@.len() - k,
        {
            let ghost prefix = segs.subrange(0, k as int);
            let ghost seg = segs[k as int];
            assert(segs.subrange(0, k + 1).drop_last() == prefix);
            assert(segs.subrange(0, k + 1).last() == seg);
            assert(struts_below(seg));
            let mut j: usize = 0;
            while j < segments[k].struts.len()
                invariant
                    k < segments@.len(),
                    j <= seg.len(),
                    seg == segments@[k as int].struts@,
                    struts_below(seg),
                    table@.len() == DOME_STRUTS,
                    forall|i: int|
                        0 <= i < DOME_STRUTS ==> #[trigger] table@[i] == if holds_index(
                            seg.subrange(0, j as int),
                            i,
                        ) {
                            Some(k)
                        } else {
                            last_holding(prefix, i)
                        },
                decreases seg.len() - j,
            {
                let index = segments[k].struts[j].index;
                assert(seg[j as int].index == index);
                table.set(index, Some(k));
                assert forall|i: int| 0 <= i < DOME_STRUTS implies #[trigger] table@[i] == if holds_index(
                    seg.subrange(0, j + 1),
                    i,
                ) {
                    Some(k)
                } else {
                    last_holding(prefix, i)
                } by {
                    let next = seg.subrange(0, j + 1);
                    if i == index {
                        assert(next[j as int].index == i);
                    } else {
                        if holds_index(next, i) {
                            let w = choose|w: int| 0 <= w < next.len() && (#[trigger] next[w]).index == i;
                            assert(seg.subrange(0, j as int)[w] == next[w]);
                        }
                        if holds_index(seg.subrange(0, j as int), i) {
                            let w = choose|w: int|
                                0 <= w < j && (#[trigger] seg.subrange(0, j as int)[w]).index == i;
                            assert(next[w] == seg.subrange(0, j as int)[w]);
                        }
                    }
                }
                j = j + 1;
            }
            assert(seg.subrange(0, seg.len() as int) == seg);
            k = k + 1;
        }
        assert(segs.subrange(0, segs.len() as int) == segs);
        VolumeStrutLayout { segments, strut_to_segment: table }
    }

    /// The last segment that holds a strut, or `None` for a strut in none
    /// of them or not of the dome.
    pub fn segment_index_of_strut(&self, strut_index: usize) -> (r: Option<usize>)
        requires
            self.wf(),
        ensures
            r == if strut_index < DOME_STRUTS {
                last_holding(segment_lists(self.segments@), strut_index as int)
            } else {
                None
            },
    {
        if strut_index < self.strut_to_segment.len() {
            self.strut_to_segment[strut_index]
        } else {
            None
        }
    }
}

/// The segments of the concentric layout grown from `points` for `layers`
/// layers over the dome's strut graph.
pub open spec fn concentric_spec(points: Seq<usize>, layers: nat) -> Seq<Seq<VolumeStrut>> {
    layers_spec(edge_dictionary_spec(VOLUME_LINES@), unused_table(), singleton_groups(points), layers).0
}

/// The concentric layout grown from several starting joints: a spoke
/// layer of the unused struts leaving each group's joints, then a ring
/// layer walking the joints each group reached, alternately, for
/// `num_layers` layers in all.
pub fn concentric_layout_from_starting_points(starting_points: &[usize], num_layers: usize) -> (r:
    VolumeStrutLayout)
    requires
        points_below(starting_points@, VOLUME_POINTS as int),
    ensures
        r.wf(),
        segment_lists(r.segments@) == concentric_spec(starting_points@, num_layers as nat),
{
    let d = volume_edge_dictionary();
    proof {
        assert(d@.len() == VOLUME_POINTS) by {
            assert(dict_view(d@).len() == d@.len());
        }
    }
    let (segments, rings) = layer_loop(&d, starting_points, num_layers);
    VolumeStrutLayout::new(segments)
}

/// The concentric layout grown from one starting joint.
pub fn concentric_layout_from_point(starting_point: usize, num_layers: usize) -> (r: VolumeStrutLayout)
    requires
        starting_point < VOLUME_POINTS,
    ensures
        r.wf(),
        segment_lists(r.segments@) == concentric_spec(seq![starting_point], num_layers as nat),
{
    let points: Vec<usize> = vec![starting_point];
    assert(points@ == seq![starting_point]);
    concentric_layout_from_starting_points(points.as_slice(), num_layers)
}

/// The starting joints of the volume animation turned by `c`: the first
/// five joints moved on by `c`, the fifth brought back by twenty once it
/// reaches forty, the last one fixed.
pub open spec fn volume_starting_points(c: int) -> Seq<usize> {
    let fifth = if 38 + c >= 40 {
        18 + c
    } else {
        38 + c
    };
    seq![
        (22 + c) as usize,
        (26 + c) as usize,
        (30 + c) as usize,
        (34 + c) as usize,
        fifth as usize,
        70usize,
    ]
}

/// The two layouts of the volume animation.
#[derive(Clone, Debug)]
pub struct VolumeLayouts {
    /// Spoke and ring layers, one segment per layer.
    pub part: VolumeStrutLayout,
    /// Each group's ring of every ring layer.
    pub section: VolumeStrutLayout,
}

/// The volume animation's layouts for a center turned by `center_offset`:
/// four layers grown from the six starting joints.
pub fn volume_layouts(center_offset: usize) -> (r: VolumeLayouts)
    requires
        center_offset <= 36,
    ensures
        r.part.wf(),
        r.section.wf(),
        (segment_lists(r.part.segments@), segment_lists(r.section.segments@)) == layers_spec(
            edge_dictionary_spec(VOLUME_LINES@),
            unused_table(),
            singleton_groups(volume_starting_points(center_offset as int)),
            VOLUME_ANIMATION_SIZE as nat,
        ),
{
    let mut points: Vec<usize> = vec![22, 26, 30, 34, 38, 70];
    let mut i: usize = 0;
    while i < 5
        invariant
            i <= 5,
            center_offset <= 36,
            points@.len() == 6,
            forall|k: int| 0 <= k < i ==> #[trigger] points@[k] == seq![22usize, 26, 30, 34, 38, 70][k] + center_offset,
            forall|k: int| i <= k < 6 ==> #[trigger] points@[k] == seq![22usize, 26, 30, 34, 38, 70][k],
        decreases 5 - i,
    {
        let p = points[i] + center_offset;
        points.set(i, p);
        i = i + 1;
    }
    if points[4] >= 40 {
        let p = points[4] - 20;
        points.set(4, p);
    }
    assert(points@ == volume_starting_points(center_offset as int));
    let d = volume_edge_dictionary();
    proof {
        assert(d@.len() == VOLUME_POINTS) by {
            assert(dict_view(d@).len() == d@.len());
        }
    }
    let (segments, rings) = layer_loop(&d, points.as_slice(), VOLUME_ANIMATION_SIZE);
    VolumeLayouts { part: VolumeStrutLayout::new(segments), section: VolumeStrutLayout::new(rings) }
}

/// Whether every strut used in `a` is used in `b`.
pub open spec fn monotone(a: Seq<bool>, b: Seq<bool>) -> bool {
    a.len() == b.len() && forall|i: int| 0 <= i < a.len() && #[trigger] a[i] ==> b[i]
}

/// Whether every strut of `s` was unused in `a` and is used in `b`.
pub open spec fn fresh(a: Seq<bool>, b: Seq<bool>, s: Seq<VolumeStrut>) -> bool {
    forall|k: int|
        0 <= k < s.len() ==> (#[trigger] s[k]).index < a.len() && !a[s[k].index as int] && b[s[k].index as int]
}

/// Whether no two struts of `s` share an index.
pub open spec fn distinct_indices(s: Seq<VolumeStrut>) -> bool {
    forall|a: int, b: int| 0 <= a < b < s.len() ==> (#[trigger] s[a]).index != (#[trigger] s[b]).index
}

/// Whether no strut index occurs twice across all segments.
pub open spec fn all_distinct(segs: Seq<Seq<VolumeStrut>>) -> bool {
    forall|k1: int, j1: int, k2: int, j2: int|
        0 <= k1 < segs.len() && 0 <= j1 < segs[k1].len() && 0 <= k2 < segs.len() && 0 <= j2
            < segs[k2].len() && (k1 != k2 || j1 != j2) ==> (#[trigger] segs[k1][j1]).index != (
        #[trigger] segs[k2][j2]).index
}

proof fn lemma_push_unique_fresh(a: Seq<bool>, b: Seq<bool>, s: Seq<VolumeStrut>, v: VolumeStrut)
    requires
        fresh(a, b, s),
        distinct_indices(s),
        v.index < a.len(),
        !a[v.index as int],
        b[v.index as int],
    ensures
        fresh(a, b, push_unique_strut_spec(s, v)),
        distinct_indices(push_unique_strut_spec(s, v)),
{
    let r = push_unique_strut_spec(s, v);
    if !(exists|k: int| 0 <= k < s.len() && (#[trigger] s[k]).index == v.index) {
        assert forall|x: int, y: int| 0 <= x < y < r.len() implies (#[trigger] r[x]).index != (
        #[trigger] r[y]).index by {
            if y == s.len() {
                assert(r[x] == s[x]);
            } else {
                assert(r[x] == s[x] && r[y] == s[y]);
            }
        }
        assert forall|k: int| 0 <= k < r.len() implies (#[trigger] r[k]).index < a.len() && !a[r[k].index as int]
            && b[r[k].index as int] by {
            if k < s.len() {
                assert(r[k] == s[k]);
            }
        }
    }
}

proof fn lemma_fresh_widen(a: Seq<bool>, b: Seq<bool>, c: Seq<bool>, s: Seq<VolumeStrut>)
    requires
        fresh(a, b, s),
        a.len() == b.len(),
        monotone(b, c),
    ensures
        fresh(a, c, s),
{
    assert forall|k: int| 0 <= k < s.len() implies (#[trigger] s[k]).index < a.len() && !a[s[k].index as int]
        && c[s[k].index as int] by {
        assert(b[s[k].index as int]);
    }
}

proof fn lemma_mark(a: Seq<bool>, b: Seq<bool>, s: Seq<VolumeStrut>, i: int)
    requires
        monotone(a, b),
        fresh(a, b, s),
        0 <= i < b.len(),
        !b[i],
    ensures
        monotone(a, b.update(i, true)),
        fresh(a, b.update(i, true), s),
        !a[i],
{
    assert(monotone(b, b.update(i, true)));
    lemma_fresh_widen(a, b, b.update(i, true), s);
}

proof fn lemma_spoke_edges_fresh(u: Seq<bool>, st: SpokeState, es: Seq<VolumeEdge>, n: int)
    requires
        u.len() == DOME_STRUTS,
        monotone(u, st.0),
        fresh(u, st.0, st.1),
        distinct_indices(st.1),
        points_below(st.2, n),
        forall|k: int|
            0 <= k < es.len() ==> (#[trigger] es[k]).strut.index < DOME_STRUTS && es[k].connected_point < n,
    ensures
        ({
            let r = spoke_edges(st, es);
            monotone(u, r.0) && fresh(u, r.0, r.1) && distinct_indices(r.1) && points_below(r.2, n)
        }),
    decreases es.len(),
{
    if es.len() > 0 {
        let prev = es.drop_last();
        assert forall|k: int| 0 <= k < prev.len() implies (#[trigger] prev[k]).strut.index < DOME_STRUTS
            && prev[k].connected_point < n by {
            assert(prev[k] == es[k]);
        }
        lemma_spoke_edges_fresh(u, st, prev, n);
        let mid = spoke_edges(st, prev);
        let e = es.last();
        assert(e == es[es.len() - 1]);
        if !mid.0[e.strut.index as int] {
            let t = mid.0.update(e.strut.index as int, true);
            lemma_mark(u, mid.0, mid.1, e.strut.index as int);
            lemma_push_unique_fresh(u, t, mid.1, e.strut);
            let pts = push_unique_point(mid.2, e.connected_point);
            assert forall|k: int| 0 <= k < pts.len() implies #[trigger] pts[k] < n by {
                if k < mid.2.len() {
                    assert(pts[k] == mid.2[k]);
                }
            }
        }
    }
}

proof fn lemma_spoke_points_fresh(u: Seq<bool>, st: SpokeState, d: Seq<Seq<VolumeEdge>>, g: Seq<usize>)
    requires
        u.len() == DOME_STRUTS,
        dictionary_valid(d),
        points_below(g, d.len() as int),
        monotone(u, st.0),
        fresh(u, st.0, st.1),
        distinct_indices(st.1),
        points_below(st.2, d.len() as int),
    ensures
        ({
            let r = spoke_points(st, d, g);
            monotone(u, r.0) && fresh(u, r.0, r.1) && distinct_indices(r.1) && points_below(
                r.2,
                d.len() as int,
            )
        }),
    decreases g.len(),
{
    if g.len() > 0 {
        let prev = g.drop_last();
        assert(points_below(prev, d.len() as int)) by {
            assert forall|k: int| 0 <= k < prev.len() implies #[trigger] prev[k] < d.len() by {
                assert(prev[k] == g[k]);
            }
        }
        lemma_spoke_points_fresh(u, st, d, prev);
        let p = g.last() as int;
        assert(g[g.len() - 1] < d.len());
        assert forall|k: int| 0 <= k < d[p].len() implies (#[trigger] d[p][k]).strut.index < DOME_STRUTS
            && d[p][k].connected_point < d.len() by {}
        lemma_spoke_edges_fresh(u, spoke_points(st, d, prev), d[p], d.len() as int);
    }
}

proof fn lemma_spoke_groups_fresh(used: Seq<bool>, d: Seq<Seq<VolumeEdge>>, groups: Seq<Seq<usize>>)
    requires
        used.len() == DOME_STRUTS,
        dictionary_valid(d),
        groups_below(groups, d.len() as int),
    ensures
        ({
            let r = spoke_groups(used, d, groups);
            monotone(used, r.0) && fresh(used, r.0, r.1) && distinct_indices(r.1) && groups_below(
                r.2,
                d.len() as int,
            ) && r.2.len() == groups.len()
        }),
    decreases groups.len(),
{
    if groups.len() == 0 {
        assert(monotone(used, used));
    } else {
        let prev = groups.drop_last();
        assert(groups_below(prev, d.len() as int)) by {
            assert forall|k: int| 0 <= k < prev.len() implies points_below(#[trigger] prev[k], d.len() as int) by {
                assert(prev[k] == groups[k]);
            }
        }
        lemma_spoke_groups_fresh(used, d, prev);
        let pr = spoke_groups(used, d, prev);
        assert(points_below(groups[groups.len() - 1], d.len() as int));
        assert(points_below(seq![], d.len() as int));
        lemma_spoke_points_fresh(used, (pr.0, pr.1, seq![]), d, groups.last());
        let st = spoke_points((pr.0, pr.1, seq![]), d, groups.last());
        let out = pr.2.push(st.2);
        assert forall|k: int| 0 <= k < out.len() implies points_below(#[trigger] out[k], d.len() as int) by {
            if k < pr.2.len() {
                assert(out[k] == pr.2[k]);
            }
        }
    }
}

proof fn lemma_walk_fresh(
    u: Seq<bool>,
    v: Seq<bool>,
    d: Seq<Seq<VolumeEdge>>,
    g: Seq<usize>,
    st: WalkState,
    current: usize,
)
    requires
        u.len() == DOME_STRUTS,
        dictionary_valid(d),
        current < d.len(),
        monotone(u, st.0),
        monotone(v, st.0),
        fresh(u, st.0, st.1),
        distinct_indices(st.1),
        fresh(v, st.0, st.2),
        distinct_indices(st.2),
    ensures
        ({
            let w = circle_walk(d, g, st, current);
            &&& monotone(u, w.0)
            &&& monotone(v, w.0)
            &&& fresh(u, w.0, w.1)
            &&& distinct_indices(w.1)
            &&& fresh(v, w.0, w.2)
            &&& distinct_indices(w.2)
        }),
    decreases unused_count(st.0),
{
    let es = d[current as int];
    lemma_open_edge(es, g, st.0, 0);
    match open_edge_from(es, g, st.0, 0) {
        None => {},
        Some(e) => {
            let i = e.strut.index as int;
            let t = st.0.update(i, true);
            let j = choose|j: int| 0 <= j < es.len() && es[j] == e;
            assert(d[current as int][j].connected_point < d.len());
            lemma_mark(u, st.0, st.1, i);
            lemma_mark(v, st.0, st.2, i);
            lemma_push_unique_fresh(u, t, st.1, e.strut);
            lemma_push_unique_fresh(v, t, st.2, e.strut);
            if st.3.contains(e.connected_point) {
                lemma_unused_count_update(st.0, i);
                lemma_walk_fresh(
                    u,
                    v,
                    d,
                    g,
                    (
                        t,
                        push_unique_strut_spec(st.1, e.strut),
                        push_unique_strut_spec(st.2, e.strut),
                        without_point(st.3, current),
                    ),
                    e.connected_point,
                );
            }
        },
    }
}

/// Whether every strut of every segment was unused in `a` and is used in `b`.
pub open spec fn all_fresh(a: Seq<bool>, b: Seq<bool>, segs: Seq<Seq<VolumeStrut>>) -> bool {
    forall|k: int| 0 <= k < segs.len() ==> fresh(a, b, #[trigger] segs[k])
}

proof fn lemma_all_distinct_push(a: Seq<bool>, b: Seq<bool>, c: Seq<bool>, segs: Seq<Seq<VolumeStrut>>, s: Seq<VolumeStrut>)
    requires
        all_distinct(segs),
        all_fresh(a, b, segs),
        fresh(b, c, s),
        distinct_indices(s),
        monotone(a, b),
        monotone(b, c),
    ensures
        all_distinct(segs.push(s)),
        all_fresh(a, c, segs.push(s)),
{
    let r = segs.push(s);
    assert forall|k1: int, j1: int, k2: int, j2: int|
        0 <= k1 < r.len() && 0 <= j1 < r[k1].len() && 0 <= k2 < r.len() && 0 <= j2 < r[k2].len() && (k1
            != k2 || j1 != j2) implies (#[trigger] r[k1][j1]).index != (#[trigger] r[k2][j2]).index by {
        if k1 < segs.len() {
            assert(r[k1] == segs[k1]);
            assert(fresh(a, b, segs[k1]));
        }
        if k2 < segs.len() {
            assert(r[k2] == segs[k2]);
            assert(fresh(a, b, segs[k2]));
        }
        if k1 == segs.len() && k2 == segs.len() {
            if j1 < j2 {
                assert(s[j1].index != s[j2].index);
            } else {
                assert(s[j2].index != s[j1].index);
            }
        }
    }
    assert forall|k: int| 0 <= k < r.len() implies fresh(a, c, #[trigger] r[k]) by {
        if k < segs.len() {
            assert(r[k] == segs[k]);
            assert(fresh(a, b, segs[k]));
            lemma_fresh_widen(a, b, c, segs[k]);
        } else {
            assert(r[k] == s);
            assert forall|j: int| 0 <= j < s.len() implies (#[trigger] s[j]).index < a.len() && !a[s[j].index as int]
                && c[s[j].index as int] by {
                assert(!b[s[j].index as int]);
            }
        }
    }
}

proof fn lemma_circle_groups_fresh(d: Seq<Seq<VolumeEdge>>, used: Seq<bool>, groups: Seq<Seq<usize>>)
    requires
        used.len() == DOME_STRUTS,
        dictionary_valid(d),
        groups_below(groups, d.len() as int),
    ensures
        ({
            let r = circle_groups(d, used, groups);
            &&& monotone(used, r.0)
            &&& fresh(used, r.0, r.1)
            &&& distinct_indices(r.1)
            &&& all_distinct(r.2)
            &&& all_fresh(used, r.0, r.2)
        }),
    decreases groups.len(),
{
    if groups.len() == 0 {
        assert(monotone(used, used));
    } else {
        let prev = groups.drop_last();
        assert(groups_below(prev, d.len() as int)) by {
            assert forall|k: int| 0 <= k < prev.len() implies points_below(#[trigger] prev[k], d.len() as int) by {
                assert(prev[k] == groups[k]);
            }
        }
        lemma_circle_groups_fresh(d, used, prev);
        let pr = circle_groups(d, used, prev);
        let g = groups.last();
        assert(points_below(groups[groups.len() - 1], d.len() as int));
        assert(monotone(pr.0, pr.0));
        if g.len() == 0 {
            lemma_all_distinct_push(used, pr.0, pr.0, pr.2, seq![]);
        } else {
            assert(g[0] < d.len());
            let start = circle_start(d, g);
            assert(start < d.len()) by {
                lemma_circle_start_in(d, g, 0);
            }
            lemma_walk_fresh(used, pr.0, d, g, (pr.0, pr.1, seq![], g), start);
            let w = circle_walk(d, g, (pr.0, pr.1, seq![], g), start);
            lemma_all_distinct_push(used, pr.0, w.0, pr.2, w.2);
        }
    }
}

proof fn lemma_circle_start_in(d: Seq<Seq<VolumeEdge>>, g: Seq<usize>, k: int)
    requires
        points_below(g, d.len() as int),
    ensures
        circle_start_from(d, g, k) matches Some(p) ==> p < d.len(),
    decreases g.len() - k,
{
    if 0 <= k < g.len() {
        lemma_circle_start_in(d, g, k + 1);
    }
}

/// Whether every strut of every segment is a strut of the table `a`
/// that is unused there.
pub open spec fn all_unused(a: Seq<bool>, segs: Seq<Seq<VolumeStrut>>) -> bool {
    forall|k: int, j: int|
        0 <= k < segs.len() && 0 <= j < segs[k].len() ==> (#[trigger] segs[k][j]).index < a.len()
            && !a[segs[k][j].index as int]
}

proof fn lemma_fresh_narrow(a: Seq<bool>, b: Seq<bool>, c: Seq<bool>, s: Seq<VolumeStrut>)
    requires
        monotone(a, b),
        fresh(b, c, s),
    ensures
        fresh(a, c, s),
{
}

proof fn lemma_all_distinct_concat(a: Seq<bool>, t: Seq<bool>, x: Seq<Seq<VolumeStrut>>, y: Seq<Seq<VolumeStrut>>)
    requires
        monotone(a, t),
        all_distinct(x),
        all_distinct(y),
        all_fresh(a, t, x),
        all_unused(t, y),
    ensures
        all_distinct(x + y),
        all_unused(a, x + y),
{
    let r = x + y;
    assert forall|k1: int, j1: int, k2: int, j2: int|
        0 <= k1 < r.len() && 0 <= j1 < r[k1].len() && 0 <= k2 < r.len() && 0 <= j2 < r[k2].len() && (k1
            != k2 || j1 != j2) implies (#[trigger] r[k1][j1]).index != (#[trigger] r[k2][j2]).index by {
        if k1 < x.len() {
            assert(r[k1] == x[k1]);
            assert(fresh(a, t, x[k1]));
        } else {
            assert(r[k1] == y[k1 - x.len()]);
            assert(y[k1 - x.len()][j1] == r[k1][j1]);
        }
        if k2 < x.len() {
            assert(r[k2] == x[k2]);
            assert(fresh(a, t, x[k2]));
        } else {
            assert(r[k2] == y[k2 - x.len()]);
            assert(y[k2 - x.len()][j2] == r[k2][j2]);
        }
    }
    assert forall|k: int, j: int| 0 <= k < r.len() && 0 <= j < r[k].len() implies (#[trigger] r[k][j]).index
        < a.len() && !a[r[k][j].index as int] by {
        if k < x.len() {
            assert(r[k] == x[k]);
            assert(fresh(a, t, x[k]));
        } else {
            assert(r[k] == y[k - x.len()]);
            assert(y[k - x.len()][j] == r[k][j]);
        }
    }
}

proof fn lemma_layers_fresh(d: Seq<Seq<VolumeEdge>>, used: Seq<bool>, groups: Seq<Seq<usize>>, left: nat)
    requires
        used.len() == DOME_STRUTS,
        dictionary_valid(d),
        groups_below(groups, d.len() as int),
    ensures
        ({
            let r = layers_spec(d, used, groups, left);
            &&& all_distinct(r.0)
            &&& all_unused(used, r.0)
            &&& all_distinct(r.1)
            &&& all_unused(used, r.1)
        }),
    decreases left,
{
    let empty: Seq<Seq<VolumeStrut>> = seq![];
    if left > 0 {
        lemma_spoke_groups_fresh(used, d, groups);
        let sp = spoke_groups(used, d, groups);
        assert(monotone(used, used));
        lemma_all_distinct_push(used, used, sp.0, empty, sp.1);
        assert(empty.push(sp.1) == seq![sp.1]);
        if left == 1 {
            lemma_all_distinct_concat(used, sp.0, seq![sp.1], empty);
            assert(seq![sp.1] + empty == seq![sp.1]);
            lemma_all_distinct_concat(used, used, empty, empty);
            assert(empty + empty == empty);
        } else {
            lemma_circle_groups_fresh(d, sp.0, sp.2);
            let ci = circle_groups(d, sp.0, sp.2);
            lemma_all_distinct_push(used, sp.0, ci.0, seq![sp.1], ci.1);
            assert(seq![sp.1].push(ci.1) == seq![sp.1, ci.1]);
            lemma_layers_fresh(d, ci.0, sp.2, (left - 2) as nat);
            let rest = layers_spec(d, ci.0, sp.2, (left - 2) as nat);
            assert(monotone(used, ci.0));
            lemma_all_distinct_concat(used, ci.0, seq![sp.1, ci.1], rest.0);
            assert forall|k: int| 0 <= k < ci.2.len() implies fresh(used, ci.0, #[trigger] ci.2[k]) by {
                assert(fresh(sp.0, ci.0, ci.2[k]));
                lemma_fresh_narrow(used, sp.0, ci.0, ci.2[k]);
            }
            lemma_all_distinct_concat(used, ci.0, ci.2, rest.1);
        }
    } else {
        lemma_all_distinct_concat(used, used, empty, empty);
        assert(empty + empty == empty);
    }
}

proof fn lemma_dictionary_valid()
    ensures
        dictionary_valid(edge_dictionary_spec(VOLUME_LINES@)),
        edge_dictionary_spec(VOLUME_LINES@).len() == VOLUME_POINTS,
{
    lemma_volume_lines_valid();
    let d = edge_dictionary_spec(VOLUME_LINES@);
    assert forall|p: int, k: int| 0 <= p < d.len() && 0 <= k < d[p].len() implies (#[trigger] d[p][k]).connected_point
        < d.len() && d[p][k].strut.index < DOME_STRUTS by {
        lemma_edges_at_valid(VOLUME_LINES@, p, VOLUME_LINES@.len() as int);
    }
}

proof fn lemma_singleton_groups_below(points: Seq<usize>)
    requires
        points_below(points, VOLUME_POINTS as int),
    ensures
        groups_below(singleton_groups(points), VOLUME_POINTS as int),
{
    let gs = singleton_groups(points);
    assert forall|k: int| 0 <= k < gs.len() implies points_below(#[trigger] gs[k], VOLUME_POINTS as int) by {
        assert(gs[k] == seq![points[k]]);
    }
}

/// No strut lights twice in a concentric layout: across all of its
/// segments, every strut index occurs once.
pub proof fn law_concentric_struts_light_once(points: Seq<usize>, layers: nat)
    requires
        points_below(points, VOLUME_POINTS as int),
    ensures
        all_distinct(concentric_spec(points, layers)),
{
    lemma_dictionary_valid();
    lemma_singleton_groups_below(points);
    assert(unused_table().len() == DOME_STRUTS);
    lemma_layers_fresh(edge_dictionary_spec(VOLUME_LINES@), unused_table(), singleton_groups(points), layers);
}

/// No strut lights twice in the volume animation, neither across its
/// layers nor across its rings, whatever the center offset.
pub proof fn law_volume_struts_light_once(center_offset: int)
    requires
        0 <= center_offset <= 36,
    ensures
        ({
            let r = layers_spec(
                edge_dictionary_spec(VOLUME_LINES@),
                unused_table(),
                singleton_groups(volume_starting_points(center_offset)),
                VOLUME_ANIMATION_SIZE as nat,
            );
            all_distinct(r.0) && all_distinct(r.1)
        }),
{
    lemma_dictionary_valid();
    let points = volume_starting_points(center_offset);
    assert(points_below(points, VOLUME_POINTS as int));
    lemma_singleton_groups_below(points);
    assert(unused_table().len() == DOME_STRUTS);
    lemma_layers_fresh(
        edge_dictionary_spec(VOLUME_LINES@),
        unused_table(),
        singleton_groups(points),
        VOLUME_ANIMATION_SIZE as nat,
    );
}

/// In a layout whose segments share no strut, each strut is found in the
/// very segment that holds it.
pub proof fn law_strut_found_in_its_segment(segs: Seq<Seq<VolumeStrut>>, k: int, j: int)
    requires
        all_distinct(segs),
        0 <= k < segs.len(),
        0 <= j < segs[k].len(),
    ensures
        last_holding(segs, segs[k][j].index as int) == Some(k as usize),
    decreases segs.len(),
{
    let i = segs[k][j].index as int;
    if k == segs.len() - 1 {
        assert(holds_index(segs.last(), i)) by {
            assert(segs.last()[j].index == i);
        }
    } else {
        let prev = segs.drop_last();
        assert(!holds_index(segs.last(), i)) by {
            if holds_index(segs.last(), i) {
                let w = choose|w: int| 0 <= w < segs.last().len() && (#[trigger] segs.last()[w]).index == i;
                assert(segs[segs.len() - 1][w].index == segs[k][j].index);
            }
        }
        assert(all_distinct(prev)) by {
            assert forall|k1: int, j1: int, k2: int, j2: int|
                0 <= k1 < prev.len() && 0 <= j1 < prev[k1].len() && 0 <= k2 < prev.len() && 0 <= j2
                    < prev[k2].len() && (k1 != k2 || j1 != j2) implies (#[trigger] prev[k1][j1]).index
                != (#[trigger] prev[k2][j2]).index by {
                assert(prev[k1] == segs[k1] && prev[k2] == segs[k2]);
                assert(segs[k1][j1].index != segs[k2][j2].index);
            }
        }
        assert(prev[k] == segs[k]);
        law_strut_found_in_its_segment(prev, k, j);
    }
}

} // verus!
