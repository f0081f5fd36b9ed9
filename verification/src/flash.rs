//! The flash visualizer's shapes and the timing of their animations.
use vstd::prelude::*;

use crate::volume::{
    concentric_layout_from_point, concentric_spec, segment_lists, VolumeStrut,
    VolumeStrutLayout, VOLUME_POINTS,
};
use crate::visualizers::push_unique_usize;

verus! {

/// Timing of one flash animation, started by a MIDI pad: it rises to its
/// peak over the first four fifths of its length, holds while the pad is
/// held, and fades out after release.
#[derive(Clone, Copy, Debug, PartialEq, Eq, Structural)]
pub struct FlashTiming {
    /// The pad that started it.
    pub pad: u8,
    /// A quarter of the measure length, in milliseconds.
    pub animation_length: u64,
    /// When it started.
    pub starting_time: u64,
    /// When it peaks.
    pub peak_time: u64,
    /// When it ends once released.
    pub end_time: u64,
    /// Whether its pad was released.
    pub released: bool,
}

/// A fresh animation for `pad` starting at `now_ms` over a quarter of a
/// measure of `measure_length_ms`.
pub open spec fn timing_spec(pad: u8, measure_length_ms: u32, now_ms: u64) -> FlashTiming {
    let animation_length = (measure_length_ms / 4) as u64;
    FlashTiming {
        pad,
        animation_length,
        starting_time: now_ms,
        peak_time: (now_ms + animation_length * 8 / 10) as u64,
        end_time: (now_ms + animation_length) as u64,
        released: false,
    }
}

/// Whether an animation still shows at `now_ms`.
pub open spec fn timing_active(a: FlashTiming, now_ms: u64, shape_enabled: bool) -> bool {
    shape_enabled && (!a.released || a.end_time > now_ms)
}

/// The animation after its pad is released at `now_ms`.
pub open spec fn released_spec(a: FlashTiming, now_ms: u64) -> FlashTiming {
    if a.released {
        a
    } else {
        FlashTiming {
            released: true,
            end_time: if now_ms > a.peak_time {
                (now_ms + a.animation_length * 2 / 10) as u64
            } else {
                a.end_time
            },
            ..a
        }
    }
}

/// Whether releasing `a` at `now_ms` stays within the clock's range.
pub open spec fn release_fits(a: FlashTiming, now_ms: u64) -> bool {
    &&& a.animation_length * 2 <= u64::MAX
    &&& now_ms + a.animation_length * 2 / 10 <= u64::MAX
}

impl FlashTiming {
    /// An animation for `pad` starting at `now_ms` over a quarter of the
    /// measure: it peaks after four fifths of that and ends after all of it.
    pub fn new(pad: u8, measure_length_ms: u32, now_ms: u64) -> (r: FlashTiming)
        requires
            now_ms + measure_length_ms / 4 <= u64::MAX,
        ensures
            r == timing_spec(pad, measure_length_ms, now_ms),
    {
        let animation_length = (measure_length_ms as u64) / 4;
        assert(animation_length * 8 / 10 <= animation_length) by (nonlinear_arith)
            requires
                animation_length >= 0,
        ;
        FlashTiming {
            pad,
            animation_length,
            starting_time: now_ms,
            peak_time: now_ms + (animation_length * 8 / 10),
            end_time: now_ms + animation_length,
            released: false,
        }
    }

    /// Whether the animation still shows: its shape is enabled and it is
    /// held, or released but not yet ended.
    pub fn active(&self, now_ms: u64, shape_enabled: bool) -> (r: bool)
        ensures
            r == timing_active(*self, now_ms, shape_enabled),
    {
        shape_enabled && (!self.released || self.end_time > now_ms)
    }

    /// Release the pad at `now_ms`: after the peak the animation ends a
    /// fifth of its length later; before it, it keeps its end. A second
    /// release changes nothing.
    pub fn release(&mut self, now_ms: u64)
        requires
            release_fits(*old(self), now_ms),
        ensures
            *final(self) == released_spec(*old(self), now_ms),
    {
        if self.released {
            return ;
        }
        self.released = true;
        if now_ms > self.peak_time {
            self.end_time = now_ms + self.animation_length * 2 / 10;
        }
    }
}

/// The distinct strut indices of `segs`, in order of first appearance.
pub open spec fn strut_indices(segs: Seq<Seq<VolumeStrut>>) -> Seq<usize>
    decreases segs.len(),
{
    if segs.len() == 0 {
        seq![]
    } else {
        indices_of(strut_indices(segs.drop_last()), segs.last())
    }
}

/// `acc` with the indices of `s` appended, each unless already present.
pub open spec fn indices_of(acc: Seq<usize>, s: Seq<VolumeStrut>) -> Seq<usize>
    decreases s.len(),
{
    if s.len() == 0 {
        acc
    } else {
        let prev = indices_of(acc, s.drop_last());
        if prev.contains(s.last().index) {
            prev
        } else {
            prev.push(s.last().index)
        }
    }
}

/// Appending the indices of `s` keeps what was there and adds no index
/// twice.
proof fn lemma_indices_of_distinct(acc: Seq<usize>, s: Seq<VolumeStrut>)
    requires
        acc.no_duplicates(),
    ensures
        indices_of(acc, s).no_duplicates(),
    decreases s.len(),
{
    if s.len() > 0 {
        lemma_indices_of_distinct(acc, s.drop_last());
        let prev = indices_of(acc, s.drop_last());
        if !prev.contains(s.last().index) {
            assert forall|i: int, j: int|
                0 <= i < j < prev.push(s.last().index).len() implies prev.push(
                s.last().index,
            )[i] != prev.push(s.last().index)[j] by {
                if j == prev.len() {
                    assert(prev[i] == prev.push(s.last().index)[i]);
                }
            }
        }
    }
}

/// A flash shape lights none of its struts twice: the strut indices of a
/// layout are distinct.
pub proof fn law_flash_struts_distinct(segs: Seq<Seq<VolumeStrut>>)
    ensures
        strut_indices(segs).no_duplicates(),
    decreases segs.len(),
{
    if segs.len() > 0 {
        law_flash_struts_distinct(segs.drop_last());
        lemma_indices_of_distinct(strut_indices(segs.drop_last()), segs.last());
    }
}

/// The struts a flash shape lights: each strut of its layout once.
pub fn flash_layout_struts(layout: &VolumeStrutLayout) -> (r: Vec<usize>)
    ensures
        r@ == strut_indices(segment_lists(layout.segments@)),
{
    let ghost segs = segment_lists(layout.segments@);
    let mut out: Vec<usize> = Vec::new();
    let mut k: usize = 0;
    while k < layout.segments.len()
        invariant
            k <= layout.segments@.len(),
            segs == segment_lists(layout.segments@),
            out@ == strut_indices(segs.subrange(0, k as int)),
        decreases layout.segments@.len() - k,
    {
        let ghost before = out@;
        let ghost seg = segs[k as int];
        assert(seg == layout.segments@[k as int].struts@);
        let mut j: usize = 0;
        while j < layout.segments[k].struts.len()
            invariant
                k < layout.segments@.len(),
                j <= seg.len(),
                seg == layout.segments@[k as int].struts@,
                out@ == indices_of(before, seg.subrange(0, j as int)),
            decreases seg.len() - j,
        {
            assert(seg.subrange(0, j + 1).drop_last() == seg.subrange(0, j as int));
            push_unique_usize(&mut out, layout.segments[k].struts[j].index);
            j = j + 1;
        }
        assert(seg.subrange(0, seg.len() as int) == seg);
        assert(segs.subrange(0, k + 1).drop_last() == segs.subrange(0, k as int));
        k = k + 1;
    }
    assert(segs.subrange(0, segs.len() as int) == segs);
    out
}

/// The first joint a flash shape grows from.
pub const FIRST_FLASH_POINT: usize = 20;
/// Number of flash shapes: one per joint from the first to the top.
pub const FLASH_SHAPE_COUNT: usize = 51;

/// A flash shape: a two-layer layout around one joint and its struts.
#[derive(Clone, Debug)]
pub struct FlashShape {
    /// The shape's layout.
    pub layout: VolumeStrutLayout,
    /// The struts it lights.
    pub struts: Vec<usize>,
}

/// The flash shapes, grown from joints 20 to 70 in order.
pub fn flash_shapes() -> (r: Vec<FlashShape>)
    ensures
        r@.len() == FLASH_SHAPE_COUNT,
        forall|k: int|
            0 <= k < FLASH_SHAPE_COUNT ==> {
                &&& (#[trigger] r@[k]).layout.wf()
                &&& segment_lists(r@[k].layout.segments@) == concentric_spec(
                    seq![(FIRST_FLASH_POINT + k) as usize],
                    2,
                )
                &&& r@[k].struts@ == strut_indices(segment_lists(r@[k].layout.segments@))
            },
{
    let mut shapes: Vec<FlashShape> = Vec::new();
    let mut point: usize = FIRST_FLASH_POINT;
    while point < VOLUME_POINTS
        invariant
            FIRST_FLASH_POINT <= point <= VOLUME_POINTS,
            shapes@.len() == point - FIRST_FLASH_POINT,
            forall|k: int|
                0 <= k < shapes@.len() ==> {
                    &&& (#[trigger] shapes@[k]).layout.wf()
                    &&& segment_lists(shapes@[k].layout.segments@) == concentric_spec(
                        seq![(FIRST_FLASH_POINT + k) as usize],
                        2,
                    )
                    &&& shapes@[k].struts@ == strut_indices(
                        segment_lists(shapes@[k].layout.segments@),
                    )
                },
        decreases VOLUME_POINTS - point,
    {
        let layout = concentric_layout_from_point(point, 2);
        let struts = flash_layout_struts(&layout);
        shapes.push(FlashShape { layout, struts });
        point = point + 1;
    }
    shapes
}

/// Releasing an animation a second time changes nothing.
pub proof fn law_second_release_changes_nothing(a: FlashTiming, first_ms: u64, second_ms: u64)
    ensures
        released_spec(released_spec(a, first_ms), second_ms) == released_spec(a, first_ms),
{
}

/// Number of MIDI pads that start flashes.
pub const FLASH_PADS: usize = 16;
/// Measure length assumed while no tempo is known, in milliseconds.
pub const DEFAULT_FLASH_MEASURE_MS: u32 = 400;

/// Whether the animation in a slot has ended by `now_ms`.
pub open spec fn slot_expired(o: Option<FlashTiming>, now_ms: u64) -> bool {
    o matches Some(a) && !timing_active(a, now_ms, true)
}

/// The slots whose animations have ended by `now_ms`, in order.
pub open spec fn expired_slots(anims: Seq<Option<FlashTiming>>, now_ms: u64) -> Seq<usize>
    decreases anims.len(),
{
    if anims.len() == 0 {
        seq![]
    } else if slot_expired(anims.last(), now_ms) {
        expired_slots(anims.drop_last(), now_ms).push((anims.len() - 1) as usize)
    } else {
        expired_slots(anims.drop_last(), now_ms)
    }
}

/// The slots with no animation, in order.
pub open spec fn open_slots(anims: Seq<Option<FlashTiming>>) -> Seq<usize>
    decreases anims.len(),
{
    if anims.len() == 0 {
        seq![]
    } else if anims.last() is None {
        open_slots(anims.drop_last()).push((anims.len() - 1) as usize)
    } else {
        open_slots(anims.drop_last())
    }
}

/// The flash visualizer's state: its shapes, the animation each shows, and
/// for each pad the shape of its latest animation.
pub struct FlashRuntime {
    /// The shapes, grown from joints 20 to 70.
    pub shapes: Vec<FlashShape>,
    /// For each shape, the animation it shows.
    pub animations: Vec<Option<FlashTiming>>,
    /// For each pad, the shape of its latest animation, while that shows.
    pub pads_to_last_animation: Vec<Option<usize>>,
    /// When the latest animation started.
    pub last_user_animation_created: u64,
}

impl FlashRuntime {
    /// One animation slot per shape, one link per pad, and a pad's link
    /// names a shape whose animation is that pad's.
    pub open spec fn wf(&self) -> bool {
        &&& self.animations@.len() == self.shapes@.len()
        &&& self.pads_to_last_animation@.len() == FLASH_PADS
        &&& forall|p: int|
            0 <= p < FLASH_PADS ==> (#[trigger] self.pads_to_last_animation@[p] matches Some(
                s,
            ) ==> {
                &&& s < self.animations@.len()
                &&& self.animations@[s as int] matches Some(a)
                &&& a.pad == p
            })
    }

    /// All shapes idle and no pad linked.
    pub fn new() -> (r: FlashRuntime)
        ensures
            r.wf(),
            r.shapes@.len() == FLASH_SHAPE_COUNT,
            r.animations@ == Seq::new(FLASH_SHAPE_COUNT as nat, |i: int| None::<FlashTiming>),
            r.pads_to_last_animation@ == Seq::new(FLASH_PADS as nat, |i: int| None::<usize>),
            r.last_user_animation_created == 0,
    {
        let shapes = flash_shapes();
        let mut animations: Vec<Option<FlashTiming>> = Vec::new();
        while animations.len() < FLASH_SHAPE_COUNT
            invariant
                animations@.len() <= FLASH_SHAPE_COUNT,
                forall|i: int| 0 <= i < animations@.len() ==> animations@[i] is None,
            decreases FLASH_SHAPE_COUNT - animations@.len(),
        {
            animations.push(None);
        }
        let mut pads: Vec<Option<usize>> = Vec::new();
        while pads.len() < FLASH_PADS
            invariant
                pads@.len() <= FLASH_PADS,
                forall|i: int| 0 <= i < pads@.len() ==> pads@[i] is None,
            decreases FLASH_PADS - pads@.len(),
        {
            pads.push(None);
        }
        assert(animations@ =~= Seq::new(FLASH_SHAPE_COUNT as nat, |i: int| None::<FlashTiming>));
        assert(pads@ =~= Seq::new(FLASH_PADS as nat, |i: int| None::<usize>));
        FlashRuntime {
            shapes,
            animations,
            pads_to_last_animation: pads,
            last_user_animation_created: 0,
        }
    }

    /// End the animations that no longer show at `now_ms`: each leaves its
    /// shape free and unlinks its pad if the pad still names that shape.
    /// Returns the shapes whose struts go dark, in order.
    pub fn expire(&mut self, now_ms: u64) -> (r: Vec<usize>)
        requires
            old(self).wf(),
        ensures
            final(self).wf(),
            r@ == expired_slots(old(self).animations@, now_ms),
            final(self).shapes == old(self).shapes,
            final(self).last_user_animation_created == old(self).last_user_animation_created,
            final(self).animations@ == Seq::new(
                old(self).animations@.len(),
                |s: int|
                    if slot_expired(old(self).animations@[s], now_ms) {
                        None
                    } else {
                        old(self).animations@[s]
                    },
            ),
            final(self).pads_to_last_animation@ == Seq::new(
                FLASH_PADS as nat,
                |p: int|
                    match old(self).pads_to_last_animation@[p] {
                        Some(s) => if slot_expired(old(self).animations@[s as int], now_ms) {
                            None
                        } else {
                            Some(s)
                        },
                        None => None,
                    },
            ),
    {
        let ghost anims0 = self.animations@;
        let ghost pads0 = self.pads_to_last_animation@;
        let mut expired: Vec<usize> = Vec::new();
        let mut i: usize = 0;
        while i < self.animations.len()
            invariant
                self.wf(),
                i <= self.animations@.len(),
                self.animations@.len() == anims0.len(),
                self.shapes == old(self).shapes,
                self.last_user_animation_created == old(self).last_user_animation_created,
                expired@ == expired_slots(anims0.subrange(0, i as int), now_ms),
                forall|s: int|
                    0 <= s < anims0.len() ==> #[trigger] self.animations@[s] == if s < i
                        && slot_expired(anims0[s], now_ms) {
                        None
                    } else {
                        anims0[s]
                    },
                forall|p: int|
                    0 <= p < FLASH_PADS ==> #[trigger] self.pads_to_last_animation@[p] == match pads0[p] {
                        Some(s) => if s < i && slot_expired(anims0[s as int], now_ms) {
                            None
                        } else {
                            Some(s)
                        },
                        None => None,
                    },
                forall|p: int|
                    0 <= p < FLASH_PADS ==> (#[trigger] pads0[p] matches Some(s) ==> {
                        &&& s < anims0.len()
                        &&& anims0[s as int] matches Some(a)
                        &&& a.pad == p
                    }),
                pads0.len() == FLASH_PADS,
            decreases anims0.len() - i,
        {
            assert(anims0.subrange(0, i + 1).drop_last() =~= anims0.subrange(0, i as int));
            let slot = self.animations[i];
            match slot {
                Some(animation) => {
                    if !animation.active(now_ms, true) {
                        let pad = animation.pad as usize;
                        if pad < FLASH_PADS {
                            let linked = self.pads_to_last_animation[pad];
                            if linked == Some(i) {
                                self.pads_to_last_animation.set(pad, None);
                            }
                        }
                        self.animations.set(i, None);
                        expired.push(i);
                        proof {
                            assert forall|p: int|
                                0 <= p < FLASH_PADS implies #[trigger] self.pads_to_last_animation@[p]
                                == match pads0[p] {
                                Some(s) => if s < i + 1 && slot_expired(anims0[s as int], now_ms) {
                                    None
                                } else {
                                    Some(s)
                                },
                                None => None,
                            } by {
                                if pads0[p] == Some(i) {
                                    assert(anims0[i as int] == slot);
                                }
                            }
                        }
                    }
                },
                None => {},
            }
            i = i + 1;
        }
        assert(anims0.subrange(0, anims0.len() as int) =~= anims0);
        assert(self.animations@ =~= Seq::new(
            anims0.len(),
            |s: int|
                if slot_expired(anims0[s], now_ms) {
                    None
                } else {
                    anims0[s]
                },
        ));
        assert(self.pads_to_last_animation@ =~= Seq::new(
            FLASH_PADS as nat,
            |p: int|
                match pads0[p] {
                    Some(s) => if slot_expired(anims0[s as int], now_ms) {
                        None
                    } else {
                        Some(s)
                    },
                    None => None,
                },
        ));
        expired
    }

    /// A note on `pad` at `now_ms`: notes above the last pad are ignored;
    /// otherwise the pad's latest animation, if it still shows, is
    /// released. Returns whether the note starts a new animation: it does
    /// unless it is ignored, or it releases an animation and is a note off.
    pub fn begin_note(&mut self, pad: u8, pressed: bool, now_ms: u64) -> (start: bool)
        requires
            old(self).wf(),
            pad < FLASH_PADS ==> match old(self).pads_to_last_animation@[pad as int] {
                Some(s) => release_fits(old(self).animations@[s as int]->0, now_ms),
                None => true,
            },
        ensures
            final(self).wf(),
            start == (pad < FLASH_PADS && (pressed
                || old(self).pads_to_last_animation@[pad as int] is None)),
            final(self).shapes == old(self).shapes,
            final(self).pads_to_last_animation == old(self).pads_to_last_animation,
            final(self).last_user_animation_created == old(self).last_user_animation_created,
            final(self).animations@ == if pad < FLASH_PADS {
                match old(self).pads_to_last_animation@[pad as int] {
                    Some(s) => old(self).animations@.update(
                        s as int,
                        Some(released_spec(old(self).animations@[s as int]->0, now_ms)),
                    ),
                    None => old(self).animations@,
                }
            } else {
                old(self).animations@
            },
    {
        if pad as usize >= FLASH_PADS {
            return false;
        }
        let p = pad as usize;
        match self.pads_to_last_animation[p] {
            Some(s) => {
                proof {
                    assert(self.pads_to_last_animation@[p as int] matches Some(t) ==> t < self.animations@.len());
                }
                let mut animation = self.animations[s].unwrap();
                animation.release(now_ms);
                self.animations.set(s, Some(animation));
                proof {
                    assert forall|q: int|
                        0 <= q < FLASH_PADS implies (#[trigger] self.pads_to_last_animation@[q] matches Some(
                        t,
                    ) ==> {
                        &&& t < self.animations@.len()
                        &&& self.animations@[t as int] matches Some(a)
                        &&& a.pad == q
                    }) by {
                        assert(old(self).pads_to_last_animation@[q] == self.pads_to_last_animation@[q]);
                    }
                }
                pressed
            },
            None => true,
        }
    }

    /// Start an animation for `pad` on the free shape `shape_index`, over a
    /// quarter of the measure (400 ms while no tempo is known), and link
    /// the pad to it.
    pub fn start(
        &mut self,
        pad: u8,
        shape_index: usize,
        measure_length_ms: Option<u32>,
        now_ms: u64,
    )
        requires
            old(self).wf(),
            pad < FLASH_PADS,
            shape_index < old(self).animations@.len(),
            old(self).animations@[shape_index as int] is None,
            now_ms + u32::MAX / 4 <= u64::MAX,
        ensures
            final(self).wf(),
            final(self).shapes == old(self).shapes,
            final(self).animations@ == old(self).animations@.update(
                shape_index as int,
                Some(
                    timing_spec(
                        pad,
                        match measure_length_ms {
                            Some(m) => m,
                            None => DEFAULT_FLASH_MEASURE_MS,
                        },
                        now_ms,
                    ),
                ),
            ),
            final(self).pads_to_last_animation@ == old(self).pads_to_last_animation@.update(
                pad as int,
                Some(shape_index),
            ),
            final(self).last_user_animation_created == now_ms,
    {
        let measure = match measure_length_ms {
            Some(m) => m,
            None => DEFAULT_FLASH_MEASURE_MS,
        };
        let animation = FlashTiming::new(pad, measure, now_ms);
        self.animations.set(shape_index, Some(animation));
        self.pads_to_last_animation.set(pad as usize, Some(shape_index));
        self.last_user_animation_created = now_ms;
        proof {
            assert forall|q: int|
                0 <= q < FLASH_PADS implies (#[trigger] self.pads_to_last_animation@[q] matches Some(
                t,
            ) ==> {
                &&& t < self.animations@.len()
                &&& self.animations@[t as int] matches Some(a)
                &&& a.pad == q
            }) by {
                if q != pad as int {
                    assert(old(self).pads_to_last_animation@[q] == self.pads_to_last_animation@[q]);
                    if let Some(t) = self.pads_to_last_animation@[q] {
                        assert(t != shape_index);
                    }
                }
            }
        }
    }

    /// The shapes free for a new animation, in order.
    pub fn available_shapes(&self) -> (r: Vec<usize>)
        ensures
            r@ == open_slots(self.animations@),
            forall|k: int|
                0 <= k < r@.len() ==> #[trigger] r@[k] < self.animations@.len()
                    && self.animations@[r@[k] as int] is None,
    {
        let mut out: Vec<usize> = Vec::new();
        let mut i: usize = 0;
        while i < self.animations.len()
            invariant
                i <= self.animations@.len(),
                out@ == open_slots(self.animations@.subrange(0, i as int)),
                forall|k: int|
                    0 <= k < out@.len() ==> #[trigger] out@[k] < i
                        && self.animations@[out@[k] as int] is None,
            decreases self.animations@.len() - i,
        {
            assert(self.animations@.subrange(0, i + 1).drop_last() =~= self.animations@.subrange(
                0,
                i as int,
            ));
            if self.animations[i].is_none() {
                out.push(i);
            }
            i = i + 1;
        }
        assert(self.animations@.subrange(0, self.animations@.len() as int) =~= self.animations@);
        out
    }
}

} // verus!
