//! Visualizer scheduling by priority.
use vstd::prelude::*;

verus! {

/// Visualizer metadata needed by the scheduler.
#[derive(Clone, Debug, PartialEq, Eq)]
pub struct VisualizerSpec {
    /// Stable visualizer name.
    pub name: &'static str,
    /// Current priority. Priority 0 is never selected. Priority -1 is always-run.
    pub priority: i32,
    /// Whether all required inputs are enabled.
    pub inputs_enabled: bool,
}

/// Active visualizer names for one output frame.
#[derive(Clone, Debug, Default, PartialEq, Eq)]
pub struct ScheduledFrame {
    /// Highest selected non-negative priority.
    pub top_priority: i32,
    /// Visualizers selected for this frame.
    pub active: Vec<&'static str>,
}

/// Priority marking a visualizer that runs alongside whatever is selected.
pub const ALWAYS_RUN: i32 = -1;

/// The top priority: the largest priority of an enabled visualizer that is
/// not always-run, and at least 1.
pub open spec fn top_priority(specs: Seq<VisualizerSpec>) -> i32
    decreases specs.len(),
{
    if specs.len() == 0 {
        1
    } else {
        let t = top_priority(specs.drop_last());
        let v = specs.last();
        if v.inputs_enabled && v.priority != ALWAYS_RUN && v.priority > t {
            v.priority
        } else {
            t
        }
    }
}

/// Names of the enabled visualizers with priority `p`, in order.
pub open spec fn names_at(specs: Seq<VisualizerSpec>, p: i32) -> Seq<&'static str>
    decreases specs.len(),
{
    if specs.len() == 0 {
        Seq::empty()
    } else {
        let rest = names_at(specs.drop_last(), p);
        let v = specs.last();
        if v.inputs_enabled && v.priority == p {
            rest.push(v.name)
        } else {
            rest
        }
    }
}

/// The selection for one frame: the enabled visualizers at the top
/// priority, then the enabled always-run ones, each group in input order.
pub open spec fn scheduled_names(specs: Seq<VisualizerSpec>) -> Seq<&'static str> {
    names_at(specs, top_priority(specs)) + names_at(specs, ALWAYS_RUN)
}

/// Every enabled visualizer that is not always-run has a priority no
/// higher than the top priority, and the top priority is at least 1.
pub proof fn lemma_top_bounds(specs: Seq<VisualizerSpec>)
    ensures
        top_priority(specs) >= 1,
        forall|j: int|
            0 <= j < specs.len() && specs[j].inputs_enabled && specs[j].priority != ALWAYS_RUN
                ==> specs[j].priority <= top_priority(specs),
    decreases specs.len(),
{
    if specs.len() > 0 {
        let rest = specs.drop_last();
        lemma_top_bounds(rest);
        assert forall|j: int|
            0 <= j < specs.len() && specs[j].inputs_enabled && specs[j].priority
                != ALWAYS_RUN implies specs[j].priority <= top_priority(specs) by {
            if j < rest.len() {
                assert(rest[j] == specs[j]);
            }
        }
    }
}

/// No enabled visualizer has a priority above `p`, so none is named at `q > p`.
proof fn lemma_names_above_empty(specs: Seq<VisualizerSpec>, p: i32, q: i32)
    requires
        q > p,
        q != ALWAYS_RUN,
        forall|j: int|
            0 <= j < specs.len() && specs[j].inputs_enabled && specs[j].priority != ALWAYS_RUN
                ==> specs[j].priority <= p,
    ensures
        names_at(specs, q) == Seq::<&'static str>::empty(),
    decreases specs.len(),
{
    if specs.len() > 0 {
        let rest = specs.drop_last();
        assert forall|j: int|
            0 <= j < rest.len() && rest[j].inputs_enabled && rest[j].priority
                != ALWAYS_RUN implies rest[j].priority <= p by {
            assert(rest[j] == specs[j]);
        }
        lemma_names_above_empty(rest, p, q);
    }
}

/// Select visualizers by priority.
pub fn schedule_visualizers(specs: &[VisualizerSpec]) -> (frame: ScheduledFrame)
    ensures
        frame.top_priority == top_priority(specs@),
        frame.active@ == scheduled_names(specs@),
{
    let mut top: i32 = 1;
    let mut active: Vec<&'static str> = Vec::new();
    let mut always: Vec<&'static str> = Vec::new();
    let mut i: usize = 0;
    while i < specs.len()
        invariant
            i <= specs@.len(),
            top == top_priority(specs@.subrange(0, i as int)),
            top >= 1,
            active@ == names_at(specs@.subrange(0, i as int), top),
            always@ == names_at(specs@.subrange(0, i as int), ALWAYS_RUN),
        decreases specs@.len() - i,
    {
        let ghost prefix = specs@.subrange(0, i as int);
        let ghost next = specs@.subrange(0, i + 1);
        assert(next.drop_last() == prefix);
        assert(next.last() == specs@[i as int]);
        let spec = &specs[i];
        if !spec.inputs_enabled {
        } else if spec.priority == ALWAYS_RUN {
            always.push(spec.name);
        } else if spec.priority > top {
            proof {
                lemma_top_bounds(prefix);
                lemma_names_above_empty(prefix, top, spec.priority);
            }
            top = spec.priority;
            active.clear();
            active.push(spec.name);
        } else if spec.priority == top {
            active.push(spec.name);
        }
        proof {
            if spec.inputs_enabled && spec.priority != ALWAYS_RUN && spec.priority > top_priority(
                prefix,
            ) {
                assert(names_at(prefix, top) == Seq::<&'static str>::empty());
                assert(names_at(next, top) == names_at(prefix, top).push(spec.name));
            }
            assert(top == top_priority(next));
        }
        i = i + 1;
    }
    assert(specs@.subrange(0, specs@.len() as int) == specs@);
    active.append(&mut always);
    ScheduledFrame { top_priority: top, active }
}

/// The selection never holds a visualizer whose inputs are disabled or
/// whose priority is 0: every name comes from an enabled visualizer at the
/// top priority (which is at least 1) or at the always-run priority.
pub proof fn law_selection_is_enabled_top_or_always(specs: Seq<VisualizerSpec>, k: int)
    requires
        0 <= k < scheduled_names(specs).len(),
    ensures
        top_priority(specs) >= 1,
        exists|j: int|
            0 <= j < specs.len() && specs[j].inputs_enabled && specs[j].name
                == scheduled_names(specs)[k] && (specs[j].priority == top_priority(specs)
                || specs[j].priority == ALWAYS_RUN),
{
    lemma_top_bounds(specs);
    let top = top_priority(specs);
    let a = names_at(specs, top);
    if k < a.len() {
        lemma_name_comes_from(specs, top, k);
    } else {
        assert(scheduled_names(specs)[k] == names_at(specs, ALWAYS_RUN)[k - a.len()]);
        lemma_name_comes_from(specs, ALWAYS_RUN, k - a.len());
    }
}

/// Each name at priority `p` is the name of an enabled visualizer at `p`.
pub proof fn lemma_name_comes_from(specs: Seq<VisualizerSpec>, p: i32, k: int)
    requires
        0 <= k < names_at(specs, p).len(),
    ensures
        exists|j: int|
            0 <= j < specs.len() && specs[j].inputs_enabled && specs[j].priority == p
                && specs[j].name == names_at(specs, p)[k],
    decreases specs.len(),
{
    let rest = specs.drop_last();
    let v = specs.last();
    if v.inputs_enabled && v.priority == p && k == names_at(rest, p).len() {
        assert(specs[specs.len() - 1] == v);
    } else {
        lemma_name_comes_from(rest, p, k);
        let j = choose|j: int|
            0 <= j < rest.len() && rest[j].inputs_enabled && rest[j].priority == p
                && rest[j].name == names_at(rest, p)[k];
        assert(specs[j] == rest[j]);
    }
}

} // verus!
