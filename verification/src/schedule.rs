//! Schedule builder: turns the drained stage sequence into one linear
//! build sequence. Per stage it appends the parallel units, then the
//! exclusive (thread-pinned) units, then one synchronization barrier —
//! unconditionally, even for a stage that contributed no units. Setup
//! units form a separate one-shot batch that precedes the main schedule.

use vstd::prelude::*;

use crate::registry::{StageEntry, StageView};
use crate::work::WorkUnit;

verus! {

/// One step of a compiled schedule: a world-mutating unit, a thread-pinned
/// exclusive unit, or a barrier that orders everything before it strictly
/// ahead of everything after it.
#[derive(Clone, Copy, Debug, PartialEq, Eq, Structural)]
pub enum Step {
    Parallel(WorkUnit),
    Exclusive(WorkUnit),
    Barrier,
}

/// The steps one stage contributes: its parallel units in registration
/// order, its exclusive units in registration order, and a closing barrier.
pub open spec fn stage_steps(e: StageView) -> Seq<Step> {
    e.parallel.map_values(|u: WorkUnit| Step::Parallel(u))
        + e.exclusive.map_values(|u: WorkUnit| Step::Exclusive(u)) + seq![Step::Barrier]
}

/// The whole main schedule: each stage's steps, in stage order.
pub open spec fn compile(s: Seq<StageView>) -> Seq<Step>
    decreases s.len(),
{
    if s.len() == 0 {
        Seq::empty()
    } else {
        stage_steps(s.first()) + compile(s.drop_first())
    }
}

/// The compiled schedule splits at any stage boundary.
pub proof fn lemma_compile_split(s: Seq<StageView>, i: int)
    requires
        0 <= i <= s.len(),
    ensures
        compile(s) == compile(s.take(i)) + compile(s.skip(i)),
    decreases i,
{
    if i == 0 {
        assert(s.take(0) =~= Seq::<StageView>::empty());
        assert(s.skip(0) =~= s);
        assert(compile(s.take(0)) + compile(s.skip(0)) =~= compile(s));
    } else {
        let t = s.drop_first();
        lemma_compile_split(t, i - 1);
        assert(s.take(i).first() == s.first());
        assert(s.take(i).drop_first() =~= t.take(i - 1));
        assert(s.skip(i) =~= t.skip(i - 1));
        assert(compile(s.take(i)) == stage_steps(s.first()) + compile(t.take(i - 1)));
        assert(compile(s.take(i)) + compile(s.skip(i)) =~= stage_steps(s.first()) + compile(t));
    }
}

/// Appending one more stage extends the compiled schedule by that stage's
/// steps.
pub proof fn lemma_compile_snoc(s: Seq<StageView>, i: int)
    requires
        0 <= i < s.len(),
    ensures
        compile(s.take(i + 1)) == compile(s.take(i)) + stage_steps(s[i]),
{
    let p = s.take(i + 1);
    lemma_compile_split(p, i);
    assert(p.take(i) =~= s.take(i));
    assert(p.skip(i) =~= seq![s[i]]);
    assert(seq![s[i]].first() == s[i]);
    assert(seq![s[i]].drop_first() =~= Seq::<StageView>::empty());
    assert(compile(Seq::<StageView>::empty()) == Seq::<Step>::empty());
    assert(compile(seq![s[i]]) == stage_steps(s[i]) + compile(Seq::<StageView>::empty()));
    assert(compile(seq![s[i]]) =~= stage_steps(s[i]));
}

/// Compile the drained stages into the repeating main schedule and hand
/// the setup units back as the one-shot setup batch.
pub fn build_schedules(setup_units: Vec<WorkUnit>, staged: Vec<StageEntry>) -> (r: (
    Vec<WorkUnit>,
    Vec<Step>,
))
    ensures
        r.0@ == setup_units@,
        r.1@ == compile(staged@.map_values(|e: StageEntry| e@)),
{
    let ghost views = staged@.map_values(|e: StageEntry| e@);
    let mut main: Vec<Step> = Vec::new();
    let mut i: usize = 0;
    proof {
        assert(main@ =~= compile(views.take(0)));
    }
    while i < staged.len()
        invariant
            0 <= i <= staged.len(),
            views == staged@.map_values(|e: StageEntry| e@),
            main@ == compile(views.take(i as int)),
        decreases staged.len() - i,
    {
        let ghost main0 = main@;
        let entry = &staged[i];
        let mut j: usize = 0;
        while j < entry.parallel.len()
            invariant
                0 <= j <= entry.parallel.len(),
                entry == &staged[i as int],
                i < staged.len(),
                main@ == main0 + entry.parallel@.take(j as int).map_values(
                    |u: WorkUnit| Step::Parallel(u),
                ),
            decreases entry.parallel.len() - j,
        {
            main.push(Step::Parallel(entry.parallel[j]));
            proof {
                assert(entry.parallel@.take(j + 1).map_values(|u: WorkUnit| Step::Parallel(u))
                    =~= entry.parallel@.take(j as int).map_values(
                    |u: WorkUnit| Step::Parallel(u),
                ).push(Step::Parallel(entry.parallel@[j as int])));
            }
            j += 1;
        }
        proof {
            assert(entry.parallel@.take(entry.parallel@.len() as int) =~= entry.parallel@);
        }
        let mut k: usize = 0;
        while k < entry.exclusive.len()
            invariant
                0 <= k <= entry.exclusive.len(),
                entry == &staged[i as int],
                i < staged.len(),
                main@ == main0 + entry.parallel@.map_values(|u: WorkUnit| Step::Parallel(u))
                    + entry.exclusive@.take(k as int).map_values(
                    |u: WorkUnit| Step::Exclusive(u),
                ),
            decreases entry.exclusive.len() - k,
        {
            main.push(Step::Exclusive(entry.exclusive[k]));
            proof {
                assert(entry.exclusive@.take(k + 1).map_values(|u: WorkUnit| Step::Exclusive(u))
                    =~= entry.exclusive@.take(k as int).map_values(
                    |u: WorkUnit| Step::Exclusive(u),
                ).push(Step::Exclusive(entry.exclusive@[k as int])));
            }
            k += 1;
        }
        proof {
            assert(entry.exclusive@.take(entry.exclusive@.len() as int) =~= entry.exclusive@);
        }
        main.push(Step::Barrier);
        proof {
            lemma_compile_snoc(views, i as int);
            assert(views[i as int] == entry@);
            assert(main@ =~= compile(views.take(i as int)) + stage_steps(entry@));
        }
        i += 1;
    }
    proof {
        assert(views.take(staged@.len() as int) =~= views);
    }
    (setup_units, main)
}

/// Each stage occupies one contiguous slice of the compiled schedule,
/// closed by exactly one barrier standing immediately after that stage's
/// units — even for a stage whose unit lists are empty — so no unit of a
/// later stage comes before the barrier of an earlier one.
pub proof fn lemma_stage_layout(s: Seq<StageView>, i: int)
    requires
        0 <= i < s.len(),
    ensures
        ({
            let off = compile(s.take(i)).len();
            let end = compile(s.take(i + 1)).len();
            &&& off + stage_steps(s[i]).len() == end
            &&& end <= compile(s).len()
            &&& forall|k: int| off <= k < end ==> compile(s)[k] == stage_steps(s[i])[k - off]
            &&& compile(s)[end - 1] == Step::Barrier
            &&& forall|k: int|
                off <= k < end - 1 ==> compile(s)[k] != Step::Barrier
        }),
{
    let off = compile(s.take(i)).len();
    let end = compile(s.take(i + 1)).len();
    lemma_compile_snoc(s, i);
    lemma_compile_split(s, i + 1);
    assert(compile(s) == compile(s.take(i)) + stage_steps(s[i]) + compile(s.skip(i + 1)));
    let st = stage_steps(s[i]);
    assert forall|k: int| off <= k < end implies compile(s)[k] == st[k - off] by {
        assert(compile(s)[k] == (compile(s.take(i)) + st)[k]);
    }
    let np = s[i].parallel.len() as int;
    let nx = s[i].exclusive.len() as int;
    assert(st.len() == np + nx + 1);
    assert(st[np + nx] == Step::Barrier);
    assert forall|k: int| off <= k < end - 1 implies compile(s)[k] != Step::Barrier by {
        let d = k - off;
        if d < np {
            assert(st[d] == Step::Parallel(s[i].parallel[d]));
        } else {
            assert(st[d] == Step::Exclusive(s[i].exclusive[d - np]));
        }
    }
}

/// Stages are separated in the compiled schedule: for stages i < j, the
/// slice of stage i — its units and the barrier closing it — ends at or
/// before the point where the slice of stage j begins, so every unit of an
/// earlier stage, and its barrier, stands strictly before every unit of a
/// later stage.
pub proof fn lemma_stage_separation(s: Seq<StageView>, i: int, j: int)
    requires
        0 <= i < j < s.len(),
    ensures
        compile(s.take(i + 1)).len() <= compile(s.take(j)).len(),
    decreases j - i,
{
    if j == i + 1 {
    } else {
        lemma_stage_separation(s, i, j - 1);
        lemma_compile_snoc(s, j - 1);
    }
}

/// The complete run order of a built application: the one-shot setup
/// batch, then the repeating main schedule.
pub open spec fn run_order(setup: Seq<WorkUnit>, main: Seq<Step>) -> Seq<Step> {
    setup.map_values(|u: WorkUnit| Step::Parallel(u)) + main
}

/// In the run order of a built application, every setup unit stands
/// before every step of the main schedule, and in particular before every
/// barrier — so the setup batch completes before the first main-schedule
/// barrier begins.
pub proof fn lemma_setup_precedes_barriers(setup: Seq<WorkUnit>, main: Seq<Step>)
    ensures
        ({
            let trace = run_order(setup, main);
            &&& trace.len() == setup.len() + main.len()
            &&& forall|k: int| 0 <= k < setup.len() ==> trace[k] == Step::Parallel(setup[k])
            &&& forall|k: int| 0 <= k < main.len() ==> trace[setup.len() + k] == main[k]
            &&& forall|j: int|
                0 <= j < trace.len() && trace[j] == Step::Barrier ==> setup.len() <= j
        }),
{
    let pre = setup.map_values(|u: WorkUnit| Step::Parallel(u));
    let trace = run_order(setup, main);
    assert forall|j: int|
        0 <= j < trace.len() && trace[j] == Step::Barrier implies setup.len() <= j by {
        if j < setup.len() {
            assert(trace[j] == pre[j]);
            assert(pre[j] == Step::Parallel(setup[j]));
        }
    }
}

/// How many unit steps — of either kind, barriers not counted — a
/// schedule holds.
pub open spec fn unit_count(steps: Seq<Step>) -> nat
    decreases steps.len(),
{
    if steps.len() == 0 {
        0
    } else {
        unit_count(steps.drop_last()) + match steps.last() {
            Step::Barrier => 0nat,
            _ => 1nat,
        }
    }
}

/// How many units the drained stages hold in all.
pub open spec fn total_units(s: Seq<StageView>) -> nat
    decreases s.len(),
{
    if s.len() == 0 {
        0
    } else {
        total_units(s.drop_last()) + s.last().parallel.len() + s.last().exclusive.len()
    }
}

/// Unit steps count across a concatenation.
proof fn lemma_unit_count_add(a: Seq<Step>, b: Seq<Step>)
    ensures
        unit_count(a + b) == unit_count(a) + unit_count(b),
    decreases b.len(),
{
    if b.len() == 0 {
        assert(a + b =~= a);
    } else {
        lemma_unit_count_add(a, b.drop_last());
        assert((a + b).drop_last() =~= a + b.drop_last());
        assert((a + b).last() == b.last());
    }
}

/// A schedule without barriers counts every step as a unit.
proof fn lemma_unit_count_no_barrier(l: Seq<Step>)
    requires
        forall|k: int| 0 <= k < l.len() ==> l[k] != Step::Barrier,
    ensures
        unit_count(l) == l.len(),
    decreases l.len(),
{
    if l.len() > 0 {
        lemma_unit_count_no_barrier(l.drop_last());
    }
}

/// One stage's steps hold exactly the stage's units.
proof fn lemma_unit_count_stage(e: StageView)
    ensures
        unit_count(stage_steps(e)) == e.parallel.len() + e.exclusive.len(),
{
    let st = stage_steps(e);
    let body = st.drop_last();
    let np = e.parallel.len() as int;
    let nx = e.exclusive.len() as int;
    assert(st.len() == np + nx + 1);
    assert(st.last() == Step::Barrier);
    assert forall|k: int| 0 <= k < body.len() implies body[k] != Step::Barrier by {
        if k < np {
            assert(st[k] == Step::Parallel(e.parallel[k]));
        } else {
            assert(st[k] == Step::Exclusive(e.exclusive[k - np]));
        }
    }
    lemma_unit_count_no_barrier(body);
}

/// Compiling conserves the total unit count — every registered unit
/// appears in the main schedule, and nothing else does.
pub proof fn lemma_unit_conservation(s: Seq<StageView>)
    ensures
        unit_count(compile(s)) == total_units(s),
    decreases s.len(),
{
    if s.len() > 0 {
        let i = s.len() - 1;
        lemma_unit_conservation(s.drop_last());
        lemma_compile_snoc(s, i as int);
        assert(s.take(i as int) =~= s.drop_last());
        assert(s.take(i as int + 1) =~= s);
        lemma_unit_count_add(compile(s.drop_last()), stage_steps(s[i as int]));
        lemma_unit_count_stage(s[i as int]);
        assert(s[i as int] == s.last());
    }
}

} // verus!
