//! Stage registry: an ordered mapping from stage name to the work units
//! registered under that name. The first registration of a name, of either
//! kind, fixes the stage's position in the global order; later
//! registrations only extend that stage's unit lists. Draining returns the
//! stages in order and leaves the registry empty.

use vstd::prelude::*;

use crate::work::{UnitKind, WorkUnit};

verus! {

broadcast use vstd::string::group_string_axioms;

/// The mathematical content of one stage: its name and its two unit lists.
pub ghost struct StageView {
    pub name: Seq<char>,
    pub parallel: Seq<WorkUnit>,
    pub exclusive: Seq<WorkUnit>,
}

/// One named stage with its registered parallel and exclusive units.
pub struct StageEntry {
    pub name: String,
    pub parallel: Vec<WorkUnit>,
    pub exclusive: Vec<WorkUnit>,
}

impl View for StageEntry {
    type V = StageView;

    open spec fn view(&self) -> StageView {
        StageView { name: self.name@, parallel: self.parallel@, exclusive: self.exclusive@ }
    }
}

/// The views of a sequence of owned strings.
pub open spec fn names_view(s: Seq<String>) -> Seq<Seq<char>> {
    s.map_values(|x: String| x@)
}

/// The stage names of `s`, in order.
pub open spec fn order_of(s: Seq<StageView>) -> Seq<Seq<char>> {
    s.map_values(|e: StageView| e.name)
}

/// Index of the first stage in `s` named `name`, or -1 if there is none.
pub open spec fn find_stage(s: Seq<StageView>, name: Seq<char>) -> int
    decreases s.len(),
{
    if s.len() == 0 {
        -1
    } else if s[0].name == name {
        0
    } else {
        let r = find_stage(s.drop_first(), name);
        if r < 0 {
            -1
        } else {
            1 + r
        }
    }
}

/// `unit` appended to the list of `e` selected by `kind`.
pub open spec fn add_unit(e: StageView, unit: WorkUnit, kind: UnitKind) -> StageView {
    match kind {
        UnitKind::Parallel => StageView { parallel: e.parallel.push(unit), ..e },
        UnitKind::Exclusive => StageView { exclusive: e.exclusive.push(unit), ..e },
    }
}

/// A fresh stage holding only `unit`.
pub open spec fn new_stage(name: Seq<char>, unit: WorkUnit, kind: UnitKind) -> StageView {
    add_unit(
        StageView { name, parallel: Seq::empty(), exclusive: Seq::empty() },
        unit,
        kind,
    )
}

/// What one registration does to the registry's content: append `unit` to
/// the first stage named `name`, or append a fresh stage if the name has
/// never been seen.
pub open spec fn register_spec(
    s: Seq<StageView>,
    name: Seq<char>,
    unit: WorkUnit,
    kind: UnitKind,
) -> Seq<StageView> {
    let i = find_stage(s, name);
    if i >= 0 {
        s.update(i, add_unit(s[i], unit, kind))
    } else {
        s.push(new_stage(name, unit, kind))
    }
}

/// `find_stage` returns the least index whose stage bears `name`, and -1
/// exactly when no stage does.
pub proof fn lemma_find_stage(s: Seq<StageView>, name: Seq<char>)
    ensures
        find_stage(s, name) == -1 ==> forall|k: int| 0 <= k < s.len() ==> s[k].name != name,
        find_stage(s, name) != -1 ==> {
            let i = find_stage(s, name);
            &&& 0 <= i < s.len()
            &&& s[i].name == name
            &&& forall|k: int| 0 <= k < i ==> s[k].name != name
        },
    decreases s.len(),
{
    if s.len() > 0 && s[0].name != name {
        let t = s.drop_first();
        lemma_find_stage(t, name);
        assert(forall|k: int| 0 <= k < t.len() ==> t[k] == s[k + 1]);
        let r = find_stage(t, name);
        if r < 0 {
            assert forall|k: int| 0 <= k < s.len() implies s[k].name != name by {
                if k > 0 {
                    assert(t[k - 1] == s[k]);
                }
            }
        } else {
            assert(find_stage(s, name) == 1 + r);
            assert(t[r] == s[r + 1]);
            assert forall|k: int| 0 <= k < 1 + r implies s[k].name != name by {
                if k > 0 {
                    assert(t[k - 1] == s[k]);
                }
            }
        }
    }
}

/// Ordered registry of stages. Registration always succeeds; draining is
/// destructive and preserves the stage order exactly.
pub struct StageRegistry {
    entries: Vec<StageEntry>,
}

impl View for StageRegistry {
    type V = Seq<StageView>;

    closed spec fn view(&self) -> Seq<StageView> {
        self.entries@.map_values(|e: StageEntry| e@)
    }
}

impl StageRegistry {
    /// An empty registry.
    pub fn new() -> (r: StageRegistry)
        ensures
            r@ == Seq::<StageView>::empty(),
    {
        let r = StageRegistry { entries: Vec::new() };
        proof {
            assert(r@ =~= Seq::<StageView>::empty());
        }
        r
    }

    /// Append `unit` under `stage_name` and `kind`; a never-seen name is
    /// appended to the stage order, an existing one keeps its position.
    pub fn register(&mut self, stage_name: &str, unit: WorkUnit, kind: UnitKind)
        ensures
            final(self)@ == register_spec(old(self)@, stage_name@, unit, kind),
    {
        let name_owned: String = stage_name.to_string();
        let n = self.entries.len();
        let mut j: usize = 0;
        while j < n
            invariant
                n == self.entries.len(),
                *self == *old(self),
                name_owned@ == stage_name@,
                0 <= j <= n,
                forall|k: int| 0 <= k < j ==> self@[k].name != stage_name@,
            decreases n - j,
        {
            if self.entries[j].name == name_owned {
                let ghost s0 = old(self)@;
                let ghost jj = j as int;
                proof {
                    assert(s0[jj] == self.entries@[jj]@);
                    assert(s0[jj].name == stage_name@);
                    lemma_find_stage(s0, stage_name@);
                    let i = find_stage(s0, stage_name@);
                    assert(i != -1);
                    if i < jj {
                        assert(s0[i].name != stage_name@);
                    }
                    if i > jj {
                        assert(s0[jj].name != stage_name@);
                    }
                    assert(i == jj);
                }
                let mut e = self.entries.remove(j);
                match kind {
                    UnitKind::Parallel => e.parallel.push(unit),
                    UnitKind::Exclusive => e.exclusive.push(unit),
                }
                proof {
                    assert(e@ == add_unit(s0[jj], unit, kind));
                }
                self.entries.insert(j, e);
                proof {
                    let target = register_spec(s0, stage_name@, unit, kind);
                    assert(target == s0.update(jj, add_unit(s0[jj], unit, kind)));
                    assert(self.entries@ == old(self).entries@.remove(jj).insert(jj, e));
                    assert forall|k: int| 0 <= k < self@.len() implies self@[k] == target[k] by {
                        assert(self@[k] == self.entries@[k]@);
                        if k < jj {
                            assert(self.entries@[k] == old(self).entries@[k]);
                        } else if k == jj {
                            assert(self.entries@[k] == e);
                        } else {
                            assert(self.entries@[k] == old(self).entries@.remove(jj)[k - 1]);
                            assert(old(self).entries@.remove(jj)[k - 1] == old(self).entries@[k]);
                        }
                    }
                    assert(self@ =~= register_spec(s0, stage_name@, unit, kind));
                }
                return;
            }
            j += 1;
        }
        proof {
            lemma_find_stage(self@, stage_name@);
        }
        let mut parallel: Vec<WorkUnit> = Vec::new();
        let mut exclusive: Vec<WorkUnit> = Vec::new();
        match kind {
            UnitKind::Parallel => parallel.push(unit),
            UnitKind::Exclusive => exclusive.push(unit),
        }
        self.entries.push(StageEntry { name: name_owned, parallel, exclusive });
        proof {
            assert(self@ =~= register_spec(old(self)@, stage_name@, unit, kind));
        }
    }

    /// The current stage order: each stage's name, in first-seen order.
    pub fn stage_order(&self) -> (r: Vec<String>)
        ensures
            names_view(r@) == order_of(self@),
    {
        let mut names: Vec<String> = Vec::new();
        let mut i: usize = 0;
        while i < self.entries.len()
            invariant
                0 <= i <= self.entries.len(),
                names@.len() == i,
                forall|k: int| 0 <= k < i ==> #[trigger] names@[k]@ == order_of(self@)[k],
            decreases self.entries.len() - i,
        {
            names.push(self.entries[i].name.clone());
            proof {
                assert(names@[i as int]@ == self.entries@[i as int].name@);
                assert(self@[i as int] == self.entries@[i as int]@);
                assert(order_of(self@)[i as int] == self@[i as int].name);
            }
            i += 1;
        }
        proof {
            assert forall|k: int| 0 <= k < names@.len() implies #[trigger] names_view(names@)[k]
                == order_of(self@)[k] by {
                assert(names_view(names@)[k] == names@[k]@);
            }
            assert(names_view(names@) =~= order_of(self@));
        }
        names
    }

    /// Remove and return every stage, in stage order; the registry is left
    /// empty, so a second drain yields an empty result.
    pub fn drain_in_order(&mut self) -> (r: Vec<StageEntry>)
        ensures
            r@.map_values(|e: StageEntry| e@) == old(self)@,
            r@.len() == old(self)@.len(),
            final(self)@ == Seq::<StageView>::empty(),
    {
        let mut taken: Vec<StageEntry> = Vec::new();
        core::mem::swap(&mut taken, &mut self.entries);
        proof {
            assert(self@ =~= Seq::<StageView>::empty());
        }
        taken
    }
}

/// One registration event: the arguments of one `register` call.
pub ghost struct RegEvent {
    pub name: Seq<char>,
    pub unit: WorkUnit,
    pub kind: UnitKind,
}

/// The registry content that a sequence of registrations builds up from
/// an empty registry.
pub open spec fn apply_all(evs: Seq<RegEvent>) -> Seq<StageView>
    decreases evs.len(),
{
    if evs.len() == 0 {
        Seq::empty()
    } else {
        register_spec(
            apply_all(evs.drop_last()),
            evs.last().name,
            evs.last().unit,
            evs.last().kind,
        )
    }
}

/// The distinct names of `names` in order of first occurrence.
pub open spec fn first_seen(names: Seq<Seq<char>>) -> Seq<Seq<char>>
    decreases names.len(),
{
    if names.len() == 0 {
        Seq::empty()
    } else {
        let p = first_seen(names.drop_last());
        if p.contains(names.last()) {
            p
        } else {
            p.push(names.last())
        }
    }
}

/// One registration extends the stage order by the registered name exactly
/// when the name is new, and leaves the order unchanged otherwise.
pub proof fn lemma_register_order(
    s: Seq<StageView>,
    name: Seq<char>,
    unit: WorkUnit,
    kind: UnitKind,
)
    ensures
        order_of(register_spec(s, name, unit, kind)) == if order_of(s).contains(name) {
            order_of(s)
        } else {
            order_of(s).push(name)
        },
{
    lemma_find_stage(s, name);
    let i = find_stage(s, name);
    if i >= 0 {
        assert(order_of(s).contains(name)) by {
            assert(order_of(s)[i] == name);
        }
        assert(order_of(register_spec(s, name, unit, kind)) =~= order_of(s));
    } else {
        assert(!order_of(s).contains(name)) by {
            if order_of(s).contains(name) {
                let k = choose|k: int| 0 <= k < order_of(s).len() && order_of(s)[k] == name;
                assert(s[k].name == name);
            }
        }
        assert(new_stage(name, unit, kind).name == name);
        assert(order_of(register_spec(s, name, unit, kind)) =~= order_of(s).push(name));
    }
}

/// For every sequence of stage registrations, of either kind and in
/// any interleaving, the resulting stage order equals the sequence of
/// first-seen distinct stage names.
pub proof fn lemma_stage_order_first_seen(evs: Seq<RegEvent>)
    ensures
        order_of(apply_all(evs)) == first_seen(evs.map_values(|e: RegEvent| e.name)),
    decreases evs.len(),
{
    let names = evs.map_values(|e: RegEvent| e.name);
    if evs.len() == 0 {
        assert(order_of(apply_all(evs)) =~= Seq::<Seq<char>>::empty());
    } else {
        lemma_stage_order_first_seen(evs.drop_last());
        lemma_register_order(
            apply_all(evs.drop_last()),
            evs.last().name,
            evs.last().unit,
            evs.last().kind,
        );
        assert(evs.drop_last().map_values(|e: RegEvent| e.name) =~= names.drop_last());
        assert(names.last() == evs.last().name);
    }
}

} // verus!
