//! Visualizer catalogue, the snake triangle graph and small geometry
//! helpers shared by the visualizers.
use vstd::prelude::*;

verus! {

/// Supported live visualizers.
#[derive(Clone, Copy, Debug, PartialEq, Eq, Structural)]
pub enum LiveVisualizer {
    /// TV static fallback.
    TvStatic,
    /// Audio volume mode.
    Volume,
    /// MIDI flash overlay.
    Flash,
    /// Radial buffer mode.
    Radial,
    /// Splat buffer mode.
    Splat,
    /// Race mode.
    Race,
    /// Snakes mode.
    Snakes,
    /// Quaternion test mode.
    QuaternionTest,
    /// Quaternion multi-test mode.
    QuaternionMultiTest,
    /// Quaternion paintbrush mode.
    QuaternionPaintbrush,
}

/// Used dome diagnostic visualizers.
#[derive(Clone, Copy, Debug, PartialEq, Eq, Structural)]
pub enum DomeDiagnosticVisualizer {
    /// Flash colors diagnostic.
    FlashColors,
    /// Strut iteration diagnostic.
    StrutIteration,
    /// Strand test diagnostic.
    StrandTest,
    /// Full color flash diagnostic.
    FullColorFlash,
}

/// Used bar diagnostic visualizers.
#[derive(Clone, Copy, Debug, PartialEq, Eq, Structural)]
pub enum BarDiagnosticVisualizer {
    /// Flash colors diagnostic.
    FlashColors,
}

/// Used stage visualizers.
#[derive(Clone, Copy, Debug, PartialEq, Eq, Structural)]
pub enum StageVisualizer {
    /// Flash colors diagnostic.
    FlashColorsDiagnostic,
    /// Depth level visualizer.
    DepthLevel,
}

/// Classification of a visualizer in the inventory.
#[derive(Clone, Copy, Debug, PartialEq, Eq, Structural)]
pub enum Classification {
    /// A live visualizer the operator runs.
    Live,
    /// A diagnostic, fixture or helper visualizer.
    Support,
}

/// A visualizer inventory row.
#[derive(Clone, Copy, Debug)]
pub struct VisualizerInventory {
    /// Stable name.
    pub name: &'static str,
    /// Classification.
    pub classification: Classification,
}

/// Number of inventory rows.
pub const INVENTORY_LEN: usize = 17;

/// Name of inventory row `k`.
pub open spec fn inventory_name(k: int) -> Seq<char> {
    if k == 0 {
        "LEDDomeStrutIterationDiagnosticVisualizer"@
    } else if k == 1 {
        "LEDDomeFlashColorsDiagnosticVisualizer"@
    } else if k == 2 {
        "LEDDomeStrandTestDiagnosticVisualizer"@
    } else if k == 3 {
        "LEDDomeFullColorFlashDiagnosticVisualizer"@
    } else if k == 4 {
        "LEDDomeVolumeVisualizer"@
    } else if k == 5 {
        "LEDDomeRadialVisualizer"@
    } else if k == 6 {
        "LEDDomeRaceVisualizer"@
    } else if k == 7 {
        "LEDDomeSnakesVisualizer"@
    } else if k == 8 {
        "LEDDomeSplatVisualizer"@
    } else if k == 9 {
        "LEDDomeQuaternionTestVisualizer"@
    } else if k == 10 {
        "LEDDomeQuaternionMultiTestVisualizer"@
    } else if k == 11 {
        "LEDDomeQuaternionPaintbrushVisualizer"@
    } else if k == 12 {
        "LEDDomeTVStaticVisualizer"@
    } else if k == 13 {
        "LEDDomeFlashVisualizer"@
    } else if k == 14 {
        "LEDBarFlashColorsDiagnosticVisualizer"@
    } else if k == 15 {
        "LEDStageFlashColorsDiagnosticVisualizer"@
    } else {
        "LEDStageDepthLevelVisualizer"@
    }
}

/// Classification of inventory row `k`: rows 0-3, 14 and 15 are support.
pub open spec fn inventory_class(k: int) -> Classification {
    if k <= 3 || k == 14 || k == 15 {
        Classification::Support
    } else {
        Classification::Live
    }
}

fn row(name: &'static str, classification: Classification) -> (r: VisualizerInventory)
    ensures
        r.name@ == name@,
        r.classification == classification,
{
    VisualizerInventory { name, classification }
}

/// The reviewed visualizer inventory.
pub fn inventory() -> (r: Vec<VisualizerInventory>)
    ensures
        r@.len() == INVENTORY_LEN,
        forall|k: int|
            0 <= k < INVENTORY_LEN ==> (#[trigger] r@[k]).name@ == inventory_name(k)
                && r@[k].classification == inventory_class(k),
{
    let mut v: Vec<VisualizerInventory> = Vec::new();
    v.push(row("LEDDomeStrutIterationDiagnosticVisualizer", Classification::Support));
    v.push(row("LEDDomeFlashColorsDiagnosticVisualizer", Classification::Support));
    v.push(row("LEDDomeStrandTestDiagnosticVisualizer", Classification::Support));
    v.push(row("LEDDomeFullColorFlashDiagnosticVisualizer", Classification::Support));
    v.push(row("LEDDomeVolumeVisualizer", Classification::Live));
    v.push(row("LEDDomeRadialVisualizer", Classification::Live));
    v.push(row("LEDDomeRaceVisualizer", Classification::Live));
    v.push(row("LEDDomeSnakesVisualizer", Classification::Live));
    v.push(row("LEDDomeSplatVisualizer", Classification::Live));
    v.push(row("LEDDomeQuaternionTestVisualizer", Classification::Live));
    v.push(row("LEDDomeQuaternionMultiTestVisualizer", Classification::Live));
    v.push(row("LEDDomeQuaternionPaintbrushVisualizer", Classification::Live));
    v.push(row("LEDDomeTVStaticVisualizer", Classification::Live));
    v.push(row("LEDDomeFlashVisualizer", Classification::Live));
    v.push(row("LEDBarFlashColorsDiagnosticVisualizer", Classification::Support));
    v.push(row("LEDStageFlashColorsDiagnosticVisualizer", Classification::Support));
    v.push(row("LEDStageDepthLevelVisualizer", Classification::Live));
    v
}

/// Number of inventory rows among the first `n` with classification `c`.
pub open spec fn class_count(n: int, c: Classification) -> int
    decreases n,
{
    if n <= 0 {
        0
    } else {
        class_count(n - 1, c) + if inventory_class(n - 1) == c {
            1int
        } else {
            0
        }
    }
}

/// The inventory holds eleven live and six support visualizers.
pub proof fn law_inventory_counts()
    ensures
        class_count(INVENTORY_LEN as int, Classification::Live) == 11,
        class_count(INVENTORY_LEN as int, Classification::Support) == 6,
{
    reveal_with_fuel(class_count, 18);
}

/// What a dome render does before drawing a visualizer: reset the
/// persistent state when the visualizer changes, and black the dome out
/// when it changes from another one or to the snakes.
#[derive(Clone, Copy, Debug, PartialEq, Eq, Structural)]
pub struct RenderSwitch {
    /// The persistent state of the previous visualizer is dropped.
    pub reset: bool,
    /// A blackout frame is drawn first.
    pub blackout: bool,
}

/// The switch a render of `visualizer` makes after `previous`.
pub open spec fn render_switch_spec(previous: Option<LiveVisualizer>, visualizer: LiveVisualizer) -> RenderSwitch {
    let switched = previous != Some(visualizer);
    RenderSwitch {
        reset: switched,
        blackout: switched && (previous is Some || visualizer == LiveVisualizer::Snakes),
    }
}

/// The switch a render of `visualizer` makes after `previous`.
pub fn render_switch(previous: Option<LiveVisualizer>, visualizer: LiveVisualizer) -> (r: RenderSwitch)
    ensures
        r == render_switch_spec(previous, visualizer),
{
    let switched = match previous {
        Some(p) => p != visualizer,
        None => true,
    };
    RenderSwitch {
        reset: switched,
        blackout: switched && (previous.is_some() || visualizer == LiveVisualizer::Snakes),
    }
}

/// Rendering the visualizer that is already active neither resets its
/// state nor blacks the dome out.
pub proof fn law_rendering_again_keeps_state(visualizer: LiveVisualizer)
    ensures
        render_switch_spec(Some(visualizer), visualizer) == (RenderSwitch { reset: false, blackout: false }),
{
}

/// One dome triangle: three clockwise struts and its neighbors.
#[derive(Clone, Copy, Debug)]
pub struct TriangleSeg {
    /// Struts in clockwise order.
    pub struts: [usize; 3],
    /// Whether the triangle points up.
    pub points_up: bool,
    /// Left neighbor.
    pub left: Option<usize>,
    /// Upper neighbor.
    pub above: Option<usize>,
    /// Right neighbor.
    pub right: Option<usize>,
    /// Lower neighbor.
    pub below: Option<usize>,
}

/// A neighbor direction of a triangle.
#[derive(Clone, Copy, Debug, PartialEq, Eq, Structural)]
pub enum Side {
    /// Left neighbor.
    Left,
    /// Upper neighbor.
    Above,
    /// Right neighbor.
    Right,
    /// Lower neighbor.
    Below,
}

/// A triangle with one neighbor set.
pub open spec fn with_side(t: TriangleSeg, side: Side, n: usize) -> TriangleSeg {
    match side {
        Side::Left => TriangleSeg { left: Some(n), ..t },
        Side::Above => TriangleSeg { above: Some(n), ..t },
        Side::Right => TriangleSeg { right: Some(n), ..t },
        Side::Below => TriangleSeg { below: Some(n), ..t },
    }
}

/// Link `a` to `b` on `sa`, then `b` to `a` on `sb`.
pub open spec fn linked(tris: Seq<TriangleSeg>, a: int, sa: Side, b: int, sb: Side) -> Seq<
    TriangleSeg,
> {
    let t1 = tris.update(a, with_side(tris[a], sa, b as usize));
    t1.update(b, with_side(t1[b], sb, a as usize))
}

/// The first triangle at or after `i` whose strut `slot` is `s`.
pub open spec fn first_with_strut(tris: Seq<TriangleSeg>, slot: int, s: usize, i: int) -> Option<
    int,
>
    decreases tris.len() - i,
{
    if i < 0 || i >= tris.len() {
        None
    } else if tris[i].struts@[slot] == s {
        Some(i)
    } else {
        first_with_strut(tris, slot, s, i + 1)
    }
}

/// Whether `t` has `first` as its left-facing strut.
pub open spec fn faces_left(t: TriangleSeg, first: usize) -> bool {
    (t.struts@[1] == first && t.points_up) || (t.struts@[2] == first && !t.points_up)
}

/// The first triangle at or after `i` that faces `first` on its left side.
pub open spec fn first_left(tris: Seq<TriangleSeg>, first: usize, i: int) -> Option<int>
    decreases tris.len() - i,
{
    if i < 0 || i >= tris.len() {
        None
    } else if faces_left(tris[i], first) {
        Some(i)
    } else {
        first_left(tris, first, i + 1)
    }
}

/// Link the new triangle `n` to the found triangle, if any.
pub open spec fn link_found(
    tris: Seq<TriangleSeg>,
    found: Option<int>,
    n: int,
    sn: Side,
    so: Side,
) -> Seq<TriangleSeg> {
    match found {
        Some(i) => linked(tris, n, sn, i, so),
        None => tris,
    }
}

/// A fresh triangle with no neighbors.
pub open spec fn fresh_triangle(first: usize, second: usize, third: usize, up: bool) -> TriangleSeg {
    TriangleSeg {
        struts: [first, second, third],
        points_up: up,
        left: None,
        above: None,
        right: None,
        below: None,
    }
}

/// The triangle list after adding a triangle: it is appended, then linked
/// below/above (or above/below), left/right and right/left to the first
/// triangles sharing the matching struts.
pub open spec fn added_triangle(
    tris: Seq<TriangleSeg>,
    first: usize,
    second: usize,
    third: usize,
    up: bool,
) -> Seq<TriangleSeg> {
    let n = tris.len() as int;
    let t0 = tris.push(fresh_triangle(first, second, third, up));
    if up {
        let t1 = link_found(t0, first_with_strut(t0, 1, third, 0), n, Side::Below, Side::Above);
        let t2 = link_found(t1, first_left(t1, first, 0), n, Side::Left, Side::Right);
        link_found(t2, first_with_strut(t2, 0, second, 0), n, Side::Right, Side::Left)
    } else {
        let t1 = link_found(t0, first_with_strut(t0, 2, second, 0), n, Side::Above, Side::Below);
        let t2 = link_found(t1, first_left(t1, first, 0), n, Side::Left, Side::Right);
        link_found(t2, first_with_strut(t2, 0, third, 0), n, Side::Right, Side::Left)
    }
}

/// Every neighbor a triangle names is a triangle of the list.
pub open spec fn neighbors_in_range(tris: Seq<TriangleSeg>) -> bool {
    forall|k: int|
        0 <= k < tris.len() ==> {
            &&& (#[trigger] tris[k]).left matches Some(i) ==> i < tris.len()
            &&& tris[k].above matches Some(i) ==> i < tris.len()
            &&& tris[k].right matches Some(i) ==> i < tris.len()
            &&& tris[k].below matches Some(i) ==> i < tris.len()
        }
}

fn set_side(t: &mut TriangleSeg, side: Side, n: usize)
    ensures
        *final(t) == with_side(*old(t), side, n),
{
    match side {
        Side::Left => t.left = Some(n),
        Side::Above => t.above = Some(n),
        Side::Right => t.right = Some(n),
        Side::Below => t.below = Some(n),
    }
}

fn link(tris: &mut Vec<TriangleSeg>, a: usize, sa: Side, b: usize, sb: Side)
    requires
        a < old(tris)@.len(),
        b < old(tris)@.len(),
    ensures
        final(tris)@ == linked(old(tris)@, a as int, sa, b as int, sb),
{
    let mut ta = tris[a];
    set_side(&mut ta, sa, b);
    tris.set(a, ta);
    let mut tb = tris[b];
    set_side(&mut tb, sb, a);
    tris.set(b, tb);
}

fn position_with_strut(tris: &Vec<TriangleSeg>, slot: usize, s: usize) -> (r: Option<usize>)
    requires
        slot < 3,
    ensures
        r matches Some(i) ==> first_with_strut(tris@, slot as int, s, 0) == Some(i as int) && i
            < tris@.len(),
        r is None ==> first_with_strut(tris@, slot as int, s, 0) is None,
{
    let mut i: usize = 0;
    while i < tris.len()
        invariant
            i <= tris@.len(),
            slot < 3,
            first_with_strut(tris@, slot as int, s, 0) == first_with_strut(
                tris@,
                slot as int,
                s,
                i as int,
            ),
        decreases tris@.len() - i,
    {
        if tris[i].struts[slot] == s {
            return Some(i);
        }
        i = i + 1;
    }
    None
}

fn position_left(tris: &Vec<TriangleSeg>, first: usize) -> (r: Option<usize>)
    ensures
        r matches Some(i) ==> first_left(tris@, first, 0) == Some(i as int) && i < tris@.len(),
        r is None ==> first_left(tris@, first, 0) is None,
{
    let mut i: usize = 0;
    while i < tris.len()
        invariant
            i <= tris@.len(),
            first_left(tris@, first, 0) == first_left(tris@, first, i as int),
        decreases tris@.len() - i,
    {
        let t = tris[i];
        if (t.struts[1] == first && t.points_up) || (t.struts[2] == first && !t.points_up) {
            return Some(i);
        }
        i = i + 1;
    }
    None
}

proof fn lemma_linked_in_range(tris: Seq<TriangleSeg>, a: int, sa: Side, b: int, sb: Side)
    requires
        neighbors_in_range(tris),
        0 <= a < tris.len(),
        0 <= b < tris.len(),
    ensures
        neighbors_in_range(linked(tris, a, sa, b, sb)),
        linked(tris, a, sa, b, sb).len() == tris.len(),
{
    let t1 = tris.update(a, with_side(tris[a], sa, b as usize));
    assert(neighbors_in_range(t1)) by {
        assert forall|k: int| 0 <= k < t1.len() implies {
            &&& (#[trigger] t1[k]).left matches Some(i) ==> i < t1.len()
            &&& t1[k].above matches Some(i) ==> i < t1.len()
            &&& t1[k].right matches Some(i) ==> i < t1.len()
            &&& t1[k].below matches Some(i) ==> i < t1.len()
        } by {
            assert(tris[k].left matches Some(i) ==> i < tris.len());
        }
    }
    let t2 = t1.update(b, with_side(t1[b], sb, a as usize));
    assert(neighbors_in_range(t2)) by {
        assert forall|k: int| 0 <= k < t2.len() implies {
            &&& (#[trigger] t2[k]).left matches Some(i) ==> i < t2.len()
            &&& t2[k].above matches Some(i) ==> i < t2.len()
            &&& t2[k].right matches Some(i) ==> i < t2.len()
            &&& t2[k].below matches Some(i) ==> i < t2.len()
        } by {
            assert(t1[k].left matches Some(i) ==> i < t1.len());
        }
    }
}

/// Add one triangle to the graph, linking it with its neighbors.
pub fn snake_add_triangle(
    tris: &mut Vec<TriangleSeg>,
    first: usize,
    second: usize,
    third: usize,
    points_up: bool,
)
    requires
        old(tris)@.len() < usize::MAX,
    ensures
        final(tris)@ == added_triangle(old(tris)@, first, second, third, points_up),
        final(tris)@.len() == old(tris)@.len() + 1,
        neighbors_in_range(old(tris)@) ==> neighbors_in_range(final(tris)@),
{
    let n = tris.len();
    tris.push(
        TriangleSeg {
            struts: [first, second, third],
            points_up,
            left: None,
            above: None,
            right: None,
            below: None,
        },
    );
    let ghost t0 = tris@;
    assert(t0 == old(tris)@.push(fresh_triangle(first, second, third, points_up)));
    proof {
        if neighbors_in_range(old(tris)@) {
            assert forall|k: int| 0 <= k < t0.len() implies {
                &&& (#[trigger] t0[k]).left matches Some(i) ==> i < t0.len()
                &&& t0[k].above matches Some(i) ==> i < t0.len()
                &&& t0[k].right matches Some(i) ==> i < t0.len()
                &&& t0[k].below matches Some(i) ==> i < t0.len()
            } by {
                if k < n {
                    assert(t0[k] == old(tris)@[k]);
                    assert(old(tris)@[k].left matches Some(i) ==> i < old(tris)@.len());
                }
            }
        }
    }
    let (s1, o1, key1, n1) = if points_up {
        (1usize, third, Side::Below, Side::Above)
    } else {
        (2usize, second, Side::Above, Side::Below)
    };
    match position_with_strut(tris, s1, o1) {
        Some(i) => {
            proof {
                if neighbors_in_range(tris@) {
                    lemma_linked_in_range(tris@, n as int, key1, i as int, n1);
                }
            }
            link(tris, n, key1, i, n1);
        },
        None => {},
    }
    let ghost t1 = tris@;
    match position_left(tris, first) {
        Some(i) => {
            proof {
                if neighbors_in_range(tris@) {
                    lemma_linked_in_range(tris@, n as int, Side::Left, i as int, Side::Right);
                }
            }
            link(tris, n, Side::Left, i, Side::Right);
        },
        None => {},
    }
    let ghost t2 = tris@;
    let o3 = if points_up {
        second
    } else {
        third
    };
    match position_with_strut(tris, 0, o3) {
        Some(i) => {
            proof {
                if neighbors_in_range(tris@) {
                    lemma_linked_in_range(tris@, n as int, Side::Right, i as int, Side::Left);
                }
            }
            link(tris, n, Side::Right, i, Side::Left);
        },
        None => {},
    }
}

/// The snake triangle definitions `(first, second, third, points_up)` in
/// layer order.
pub const SNAKE_TRIANGLE_DEFS: [(usize, usize, usize, bool); 120] = [
    (72, 71, 0, true),
    (73, 21, 72, false),
    (74, 73, 1, true),
    (75, 22, 74, false),
    (76, 75, 2, true),
    (77, 23, 76, false),
    (78, 77, 3, true),
    (79, 24, 78, false),
    (80, 79, 4, true),
    (81, 25, 80, false),
    (82, 81, 5, true),
    (83, 26, 82, false),
    (84, 83, 6, true),
    (85, 27, 84, false),
    (86, 85, 7, true),
    (87, 28, 86, false),
    (88, 87, 8, true),
    (89, 29, 74, false),
    (90, 89, 9, true),
    (91, 30, 74, false),
    (92, 91, 10, true),
    (93, 31, 74, false),
    (94, 93, 11, true),
    (95, 32, 74, false),
    (96, 95, 12, true),
    (97, 33, 74, false),
    (98, 97, 13, true),
    (99, 34, 74, false),
    (100, 99, 14, true),
    (101, 35, 74, false),
    (102, 101, 15, true),
    (103, 36, 74, false),
    (104, 103, 16, true),
    (105, 37, 74, false),
    (106, 105, 17, true),
    (107, 38, 74, false),
    (108, 107, 18, true),
    (109, 39, 108, false),
    (70, 109, 19, true),
    (71, 20, 70, false),
    (111, 110, 20, true),
    (112, 40, 111, false),
    (113, 112, 21, true),
    (114, 113, 22, true),
    (115, 41, 114, false),
    (116, 115, 23, true),
    (117, 42, 116, false),
    (118, 117, 24, true),
    (119, 43, 118, false),
    (120, 119, 25, true),
    (121, 120, 26, true),
    (122, 44, 121, false),
    (123, 122, 27, true),
    (124, 45, 123, false),
    (125, 124, 28, true),
    (126, 46, 125, false),
    (127, 126, 29, true),
    (128, 127, 30, true),
    (129, 47, 128, false),
    (130, 129, 31, true),
    (131, 48, 130, false),
    (132, 131, 32, true),
    (133, 49, 132, false),
    (134, 133, 33, true),
    (135, 134, 34, true),
    (136, 50, 135, false),
    (137, 136, 35, true),
    (138, 51, 137, false),
    (139, 138, 36, true),
    (140, 52, 139, false),
    (141, 140, 37, true),
    (142, 141, 38, true),
    (143, 53, 142, false),
    (144, 143, 39, true),
    (110, 54, 144, false),
    (147, 146, 40, true),
    (148, 147, 41, true),
    (149, 56, 148, false),
    (150, 149, 42, true),
    (151, 57, 150, false),
    (152, 151, 43, true),
    (153, 152, 44, true),
    (154, 58, 153, false),
    (155, 154, 45, true),
    (156, 59, 155, false),
    (157, 156, 46, true),
    (158, 157, 47, true),
    (159, 60, 158, false),
    (160, 159, 48, true),
    (161, 61, 160, false),
    (162, 161, 49, true),
    (163, 162, 50, true),
    (164, 62, 163, false),
    (165, 164, 51, true),
    (166, 63, 165, false),
    (167, 166, 52, true),
    (168, 167, 53, true),
    (169, 64, 168, false),
    (145, 169, 54, true),
    (146, 55, 145, false),
    (171, 170, 55, true),
    (172, 171, 56, true),
    (173, 65, 172, false),
    (174, 173, 57, true),
    (175, 174, 58, true),
    (176, 66, 175, false),
    (177, 176, 59, true),
    (178, 177, 60, true),
    (179, 67, 178, false),
    (180, 179, 61, true),
    (181, 180, 62, true),
    (182, 68, 181, false),
    (183, 182, 63, true),
    (184, 183, 64, true),
    (170, 69, 184, false),
    (186, 185, 65, true),
    (187, 186, 66, true),
    (188, 187, 67, true),
    (189, 188, 68, true),
    (185, 189, 69, true),
];

/// The triangle definitions `(first, second, third, points_up)` in layer order.
pub fn snake_triangle_defs() -> (r: Vec<(usize, usize, usize, bool)>)
    ensures
        r@ == SNAKE_TRIANGLE_DEFS@,
        r@.len() == 120,
{
    let defs = SNAKE_TRIANGLE_DEFS;
    let mut v: Vec<(usize, usize, usize, bool)> = Vec::new();
    let mut i: usize = 0;
    while i < 120
        invariant
            i <= 120,
            defs@ == SNAKE_TRIANGLE_DEFS@,
            v@ == defs@.subrange(0, i as int),
        decreases 120 - i,
    {
        v.push(defs[i]);
        assert(defs@.subrange(0, i + 1) == defs@.subrange(0, i as int).push(defs@[i as int]));
        i = i + 1;
    }
    assert(defs@.subrange(0, 120) == defs@);
    v
}

/// The graph built from triangle definitions, one added after another.
pub open spec fn built_triangles(defs: Seq<(usize, usize, usize, bool)>) -> Seq<TriangleSeg>
    decreases defs.len(),
{
    if defs.len() == 0 {
        Seq::empty()
    } else {
        let d = defs.last();
        added_triangle(built_triangles(defs.drop_last()), d.0, d.1, d.2, d.3)
    }
}

/// Build the triangle graph from definitions.
pub fn build_triangles(defs: &Vec<(usize, usize, usize, bool)>) -> (r: Vec<TriangleSeg>)
    ensures
        r@ == built_triangles(defs@),
        r@.len() == defs@.len(),
        neighbors_in_range(r@),
{
    let mut tris: Vec<TriangleSeg> = Vec::new();
    let mut i: usize = 0;
    while i < defs.len()
        invariant
            i <= defs@.len(),
            tris@ == built_triangles(defs@.subrange(0, i as int)),
            tris@.len() == i,
            neighbors_in_range(tris@),
        decreases defs@.len() - i,
    {
        let (a, b, c, up) = defs[i];
        assert(defs@.subrange(0, i + 1).drop_last() == defs@.subrange(0, i as int));
        snake_add_triangle(&mut tris, a, b, c, up);
        i = i + 1;
    }
    assert(defs@.subrange(0, defs@.len() as int) == defs@);
    tris
}

/// The snake triangle graph of the dome.
pub fn build_snake_triangles() -> (r: Vec<TriangleSeg>)
    ensures
        r@ == built_triangles(SNAKE_TRIANGLE_DEFS@),
        r@.len() == 120,
        neighbors_in_range(r@),
{
    let defs = snake_triangle_defs();
    build_triangles(&defs)
}

/// The snake triangle graph, built afresh on each call.
pub fn snake_triangles() -> (r: Vec<TriangleSeg>)
    ensures
        r@ == built_triangles(SNAKE_TRIANGLE_DEFS@),
        r@.len() == 120,
        neighbors_in_range(r@),
{
    build_snake_triangles()
}

/// A triangle's neighbor in a direction: 0 left, 1 above, 3 below, any
/// other right.
pub open spec fn directional(t: TriangleSeg, direction: int) -> Option<usize> {
    if direction == 0 {
        t.left
    } else if direction == 1 {
        t.above
    } else if direction == 3 {
        t.below
    } else {
        t.right
    }
}

/// A triangle's neighbor in a direction.
pub fn snake_directional(triangle: &TriangleSeg, direction: i32) -> (r: Option<usize>)
    ensures
        r == directional(*triangle, direction as int),
{
    match direction {
        0 => triangle.left,
        1 => triangle.above,
        3 => triangle.below,
        _ => triangle.right,
    }
}

/// The first neighbor found turning through the four directions from
/// `start` onwards.
pub open spec fn next_triangle_spec(t: TriangleSeg, start: int) -> Option<usize> {
    if directional(t, start) is Some {
        directional(t, start)
    } else if directional(t, (start + 1) % 4) is Some {
        directional(t, (start + 1) % 4)
    } else if directional(t, (start + 2) % 4) is Some {
        directional(t, (start + 2) % 4)
    } else {
        directional(t, (start + 3) % 4)
    }
}

/// The next triangle of a snake from `current`, trying directions in turn
/// from the drawn starting direction.
pub fn get_next_triangle(tris: &Vec<TriangleSeg>, current: usize, starting: i32) -> (r: Option<usize>)
    requires
        current < tris@.len(),
        0 <= starting < 4,
    ensures
        r == next_triangle_spec(tris@[current as int], starting as int),
{
    let t = tris[current];
    let mut direction = starting;
    let mut tried: i32 = 0;
    loop
        invariant
            0 <= starting < 4,
            0 <= tried < 4,
            direction == (starting + tried) % 4,
            t == tris@[current as int],
            tried >= 1 ==> directional(t, starting as int) is None,
            tried >= 2 ==> directional(t, (starting + 1) % 4) is None,
            tried >= 3 ==> directional(t, (starting + 2) % 4) is None,
        decreases 4 - tried,
    {
        let neighbor = snake_directional(&t, direction);
        direction = direction + 1;
        if neighbor.is_some() {
            proof {
                assert(starting % 4 == starting);
            }
            return neighbor;
        }
        if direction > 3 {
            direction = 0;
        }
        if direction == starting {
            proof {
                assert(tried == 3);
                assert(starting % 4 == starting);
            }
            return None;
        }
        tried = tried + 1;
    }
}

/// Triangles a snake keeps lit behind its head.
pub const SNAKE_LENGTH: usize = 7;
/// Wall-clock milliseconds per snake step.
pub const SNAKES_STEP_MS: u64 = 50;
/// Most snake steps taken to catch up in one frame.
pub const SNAKES_MAX_CATCHUP_STEPS: u32 = 8;

/// What a snake does next while it looks for a triangle to move to.
#[derive(Clone, Copy, Debug, PartialEq, Eq, Structural)]
pub enum SnakeStep {
    /// Move to this triangle.
    Move(usize),
    /// Draw a direction and look again.
    Draw,
}

/// The snake's next step after `attempts` draws found `next`: a found
/// triangle not on the snake is taken; after more than ten further draws the
/// snake falls back to triangle 0; otherwise it draws again.
pub open spec fn snake_step_spec(snake: Seq<usize>, next: Option<usize>, attempts: i32) -> SnakeStep {
    if next is Some && !snake.contains(next->0) {
        SnakeStep::Move(next->0)
    } else if attempts > 10 {
        SnakeStep::Move(0)
    } else {
        SnakeStep::Draw
    }
}

/// The snake's next step after `attempts` draws found `next`.
pub fn snake_step(snake: &Vec<usize>, next: Option<usize>, attempts: i32) -> (r: SnakeStep)
    ensures
        r == snake_step_spec(snake@, next, attempts),
{
    match next {
        Some(n) => {
            if !vec_contains(snake, n) {
                return SnakeStep::Move(n);
            }
        },
        None => {},
    }
    if attempts > 10 {
        SnakeStep::Move(0)
    } else {
        SnakeStep::Draw
    }
}

fn vec_contains(v: &Vec<usize>, x: usize) -> (r: bool)
    ensures
        r == v@.contains(x),
{
    let mut i: usize = 0;
    while i < v.len()
        invariant
            i <= v@.len(),
            forall|k: int| 0 <= k < i ==> v@[k] != x,
        decreases v@.len() - i,
    {
        if v[i] == x {
            assert(v@[i as int] == x);
            return true;
        }
        i = i + 1;
    }
    false
}

/// A snake after moving its head to `next`: the tail triangle leaves once
/// the snake is longer than its length.
pub open spec fn snake_moved(snake: Seq<usize>, next: usize) -> Seq<usize> {
    if snake.len() > SNAKE_LENGTH {
        snake.drop_first().push(next)
    } else {
        snake.push(next)
    }
}

/// Move a snake's head to `next`, returning the tail triangle that left.
pub fn move_snake(snake: &mut Vec<usize>, next: usize) -> (tail: Option<usize>)
    requires
        old(snake)@.len() < usize::MAX,
    ensures
        final(snake)@ == snake_moved(old(snake)@, next),
        tail == if old(snake)@.len() > SNAKE_LENGTH {
            Some(old(snake)@[0])
        } else {
            None::<usize>
        },
{
    let tail = if snake.len() > SNAKE_LENGTH {
        Some(snake.remove(0))
    } else {
        None
    };
    snake.push(next);
    tail
}

/// Snake steps a frame at `now_ms` takes after the last step at `last`:
/// none on the first frame (which starts the clock) or within a step
/// period, else one per period elapsed, at most eight. The second value is
/// when the last step happened afterwards.
pub open spec fn snake_steps_spec(last: Option<u64>, now_ms: u64) -> (u32, Option<u64>) {
    match last {
        None => (0, Some(now_ms)),
        Some(t) => {
            let elapsed = if now_ms >= t {
                now_ms - t
            } else {
                0
            };
            if elapsed < SNAKES_STEP_MS {
                (0, last)
            } else {
                let steps = elapsed / (SNAKES_STEP_MS as int);
                (
                    if steps > SNAKES_MAX_CATCHUP_STEPS {
                        SNAKES_MAX_CATCHUP_STEPS
                    } else {
                        steps as u32
                    },
                    Some(now_ms),
                )
            }
        },
    }
}

/// Snake steps a frame at `now_ms` takes after the last step.
pub fn snake_steps(last: Option<u64>, now_ms: u64) -> (r: (u32, Option<u64>))
    ensures
        r == snake_steps_spec(last, now_ms),
{
    match last {
        None => (0, Some(now_ms)),
        Some(t) => {
            let elapsed = now_ms.saturating_sub(t);
            if elapsed < SNAKES_STEP_MS {
                (0, last)
            } else {
                let steps = elapsed / SNAKES_STEP_MS;
                let capped = if steps > SNAKES_MAX_CATCHUP_STEPS as u64 {
                    SNAKES_MAX_CATCHUP_STEPS
                } else {
                    steps as u32
                };
                (capped, Some(now_ms))
            }
        },
    }
}

/// Whether a bar LED index starts or ends one of the four infinity segments.
pub open spec fn bar_border_spec(index: int, width: int, length: int) -> bool {
    let second_length_start = width + length;
    let second_width_start = width + 2 * length;
    ||| index == 0
    ||| index + 1 == length
    ||| index == length
    ||| index + 1 == length + width
    ||| index == second_length_start
    ||| index + 1 == second_length_start + length
    ||| index == second_width_start
    ||| index + 1 == second_width_start + width
}

/// Whether a bar LED index starts or ends one of the four infinity segments.
pub fn is_bar_border(index: usize, infinity_width: usize, infinity_length: usize) -> (r: bool)
    requires
        2 * infinity_width + 2 * infinity_length <= usize::MAX,
        index < usize::MAX,
    ensures
        r == bar_border_spec(index as int, infinity_width as int, infinity_length as int),
{
    let second_length_start = infinity_width + infinity_length;
    let second_width_start = infinity_width + 2 * infinity_length;
    index == 0 || index + 1 == infinity_length || index == infinity_length || index + 1
        == infinity_length + infinity_width || index == second_length_start || index + 1
        == second_length_start + infinity_length || index == second_width_start || index + 1
        == second_width_start + infinity_width
}

/// The infinity segment of a bar LED index: length, width, length, width.
pub open spec fn bar_segment_spec(index: int, width: int, length: int) -> int {
    if index < length {
        0
    } else if index < length + width {
        1
    } else if index < width + 2 * length {
        2
    } else {
        3
    }
}

/// The infinity segment of a bar LED index.
pub fn bar_segment(index: usize, infinity_width: usize, infinity_length: usize) -> (r: usize)
    requires
        infinity_width + 2 * infinity_length <= usize::MAX,
    ensures
        r == bar_segment_spec(index as int, infinity_width as int, infinity_length as int),
{
    if index < infinity_length {
        0
    } else if index < infinity_length + infinity_width {
        1
    } else if index < infinity_width + 2 * infinity_length {
        2
    } else {
        3
    }
}

/// Whether a stage side belongs to the second part of its triangle group.
pub fn stage_second_part(side_index: usize) -> (r: bool)
    ensures
        r == if side_index / 12 == 1 {
            (side_index / 3) % 4 == 2
        } else {
            (side_index / 3) % 4 == 1
        },
{
    if (side_index / 12) == 1 {
        ((side_index / 3) % 4) == 2
    } else {
        ((side_index / 3) % 4) == 1
    }
}

/// Total length of the three sides of a stage triangle.
pub fn triangle_length(side_lengths: &[usize], triangle_index: usize) -> (r: usize)
    requires
        3 * triangle_index + 3 <= side_lengths@.len(),
        side_lengths@[3 * triangle_index] + side_lengths@[3 * triangle_index + 1]
            + side_lengths@[3 * triangle_index + 2] <= usize::MAX,
    ensures
        r == side_lengths@[3 * triangle_index] + side_lengths@[3 * triangle_index + 1]
            + side_lengths@[3 * triangle_index + 2],
{
    let count = side_lengths.len();
    assert(3 * triangle_index + 3 <= count);
    let base = 3 * triangle_index;
    side_lengths[base] + side_lengths[base + 1] + side_lengths[base + 2]
}

/// First frame of the paintbrush stamp animation within a cycle.
pub const STAMP_START_FRAMES: u64 = 1_001;
/// Length of the paintbrush stamp animation in frames.
pub const STAMP_FRAMES: u64 = 90;

/// Frame of the paintbrush stamp animation at a frame of the cycle, while
/// it runs.
pub fn paintbrush_stamp_frame(frame_in_cycle: u64) -> (r: Option<u64>)
    ensures
        r == if STAMP_START_FRAMES <= frame_in_cycle < STAMP_START_FRAMES + STAMP_FRAMES {
            Some((frame_in_cycle - STAMP_START_FRAMES) as u64)
        } else {
            None::<u64>
        },
{
    if frame_in_cycle < STAMP_START_FRAMES {
        return None;
    }
    let frame = frame_in_cycle - STAMP_START_FRAMES;
    if frame < STAMP_FRAMES {
        Some(frame)
    } else {
        None
    }
}

/// Append a value unless it is already present.
pub fn push_unique_usize(values: &mut Vec<usize>, value: usize)
    ensures
        final(values)@ == if old(values)@.contains(value) {
            old(values)@
        } else {
            old(values)@.push(value)
        },
{
    let mut i: usize = 0;
    while i < values.len()
        invariant
            i <= values@.len(),
            values@ == old(values)@,
            forall|k: int| 0 <= k < i ==> values@[k] != value,
        decreases values@.len() - i,
    {
        if values[i] == value {
            assert(old(values)@.contains(value)) by {
                assert(old(values)@[i as int] == value);
            }
            return ;
        }
        i = i + 1;
    }
    values.push(value);
}

/// One FNV-1a step: fold a byte into a 64-bit hash.
pub open spec fn fnv_step(hash: u64, byte: u8) -> u64 {
    vstd::wrapping::u64_specs::wrapping_mul(hash ^ (byte as u64), 0x0000_0100_0000_01b3)
}

/// Fold a byte into an FNV-1a frame hash.
pub fn hash_byte(hash: &mut u64, byte: u8)
    ensures
        *final(hash) == fnv_step(*old(hash), byte),
{
    *hash = *hash ^ (byte as u64);
    *hash = hash.wrapping_mul(0x0000_0100_0000_01b3);
}

/// FNV-1a over a byte sequence, from hash `h`.
pub open spec fn hash_bytes(h: u64, bytes: Seq<u8>) -> u64
    decreases bytes.len(),
{
    if bytes.len() == 0 {
        h
    } else {
        fnv_step(hash_bytes(h, bytes.drop_last()), bytes.last())
    }
}

/// The eight little-endian bytes of a value.
pub open spec fn le_bytes(v: u64) -> Seq<u8> {
    seq![
        (v & 0xff) as u8,
        ((v >> 8u64) & 0xff) as u8,
        ((v >> 16u64) & 0xff) as u8,
        ((v >> 24u64) & 0xff) as u8,
        ((v >> 32u64) & 0xff) as u8,
        ((v >> 40u64) & 0xff) as u8,
        ((v >> 48u64) & 0xff) as u8,
        ((v >> 56u64) & 0xff) as u8,
    ]
}

/// Hashing one more byte is one more FNV step.
pub proof fn lemma_hash_bytes_push(h: u64, s: Seq<u8>, x: u8)
    ensures
        hash_bytes(h, s.push(x)) == fnv_step(hash_bytes(h, s), x),
{
    assert(s.push(x).drop_last() == s);
}

/// Hashing a concatenation hashes the second part from the first's hash.
pub proof fn lemma_hash_bytes_concat(h: u64, a: Seq<u8>, b: Seq<u8>)
    ensures
        hash_bytes(h, a + b) == hash_bytes(hash_bytes(h, a), b),
    decreases b.len(),
{
    if b.len() == 0 {
        assert(a + b == a);
    } else {
        lemma_hash_bytes_concat(h, a, b.drop_last());
        assert((a + b).drop_last() == a + b.drop_last());
        assert((a + b).last() == b.last());
    }
}

/// Fold the eight little-endian bytes of a value (its `to_le_bytes` on a
/// 64-bit target) into an FNV-1a frame hash.
pub fn hash_usize(hash: &mut u64, value: usize)
    ensures
        *final(hash) == hash_bytes(*old(hash), le_bytes(value as u64)),
{
    let v = value as u64;
    let ghost h0 = *hash;
    let ghost b = le_bytes(v);
    assert(b.subrange(0, 0) == Seq::<u8>::empty());
    let mut k: usize = 0;
    while k < 8
        invariant
            k <= 8,
            v == value as u64,
            b == le_bytes(v),
            *hash == hash_bytes(h0, b.subrange(0, k as int)),
        decreases 8 - k,
    {
        let shift = (8 * k) as u64;
        let byte = ((v >> shift) & 0xff) as u8;
        assert(byte == b[k as int]) by {
            assert(b[0] == (v & 0xff) as u8);
            assert(v >> 0u64 == v) by (bit_vector);
        }
        let ghost before = *hash;
        hash_byte(hash, byte);
        proof {
            lemma_hash_bytes_push(h0, b.subrange(0, k as int), byte);
            assert(b.subrange(0, k + 1) == b.subrange(0, k as int).push(byte));
        }
        k = k + 1;
    }
    assert(b.subrange(0, 8) == b);
}

} // verus!
