//! Render graph assembly: named fragments — draw targets and resource
//! providers — are registered against a mutable builder and finalized into
//! an immutable graph. A routine is the caller's handle to the actual draw
//! or resource-production code; the assembler only keeps, per fragment
//! kind, the last routine registered under each name.

use vstd::prelude::*;

verus! {

broadcast use vstd::string::group_string_axioms;

/// The mathematical content of a graph or builder: the two fragment lists,
/// each an association of fragment name to routine handle.
pub ghost struct GraphView {
    pub draw_targets: Seq<(Seq<char>, u64)>,
    pub resource_providers: Seq<(Seq<char>, u64)>,
}

/// The routine registered under `name`, taking the latest entry where
/// several bear the name.
pub open spec fn lookup(l: Seq<(Seq<char>, u64)>, name: Seq<char>) -> Option<u64>
    decreases l.len(),
{
    if l.len() == 0 {
        None
    } else if l.last().0 == name {
        Some(l.last().1)
    } else {
        lookup(l.drop_last(), name)
    }
}

/// How many entries of `l` bear `name`.
pub open spec fn count_name(l: Seq<(Seq<char>, u64)>, name: Seq<char>) -> nat
    decreases l.len(),
{
    if l.len() == 0 {
        0
    } else {
        count_name(l.drop_last(), name) + if l.last().0 == name {
            1nat
        } else {
            0nat
        }
    }
}

/// `l` without the entries bearing `name`, other entries in order.
pub open spec fn remove_name(l: Seq<(Seq<char>, u64)>, name: Seq<char>) -> Seq<(Seq<char>, u64)>
    decreases l.len(),
{
    if l.len() == 0 {
        Seq::empty()
    } else {
        let rest = remove_name(l.drop_last(), name);
        if l.last().0 == name {
            rest
        } else {
            rest.push(l.last())
        }
    }
}

/// What one fragment registration does: drop any earlier entry under the
/// same name and append the new one, so the last registration wins.
pub open spec fn put(l: Seq<(Seq<char>, u64)>, name: Seq<char>, routine: u64) -> Seq<
    (Seq<char>, u64),
> {
    remove_name(l, name).push((name, routine))
}

/// Removing a name removes all its entries and touches no other name.
pub proof fn lemma_remove_name(l: Seq<(Seq<char>, u64)>, name: Seq<char>)
    ensures
        count_name(remove_name(l, name), name) == 0,
        forall|m: Seq<char>| m != name ==> lookup(remove_name(l, name), m) == lookup(l, m),
        forall|m: Seq<char>| m != name ==> count_name(remove_name(l, name), m) == count_name(l, m),
    decreases l.len(),
{
    if l.len() > 0 {
        lemma_remove_name(l.drop_last(), name);
        let rest = remove_name(l.drop_last(), name);
        if l.last().0 != name {
            assert(rest.push(l.last()).drop_last() =~= rest);
            assert(rest.push(l.last()).last() == l.last());
        }
        assert forall|m: Seq<char>| m != name implies lookup(remove_name(l, name), m) == lookup(
            l,
            m,
        ) by {
            assert(lookup(remove_name(l.drop_last(), name), m) == lookup(l.drop_last(), m));
        }
        assert forall|m: Seq<char>| m != name implies count_name(remove_name(l, name), m)
            == count_name(l, m) by {
            assert(count_name(remove_name(l.drop_last(), name), m) == count_name(
                l.drop_last(),
                m,
            ));
        }
    }
}

/// After `put`, the name maps to the new routine, stands in exactly one
/// entry, and every other name is untouched.
pub proof fn lemma_put(l: Seq<(Seq<char>, u64)>, name: Seq<char>, routine: u64)
    ensures
        lookup(put(l, name, routine), name) == Some(routine),
        count_name(put(l, name, routine), name) == 1,
        forall|m: Seq<char>| m != name ==> lookup(put(l, name, routine), m) == lookup(l, m),
        forall|m: Seq<char>| m != name ==> count_name(put(l, name, routine), m) == count_name(
            l,
            m,
        ),
{
    lemma_remove_name(l, name);
    let p = put(l, name, routine);
    assert(p.last() == (name, routine));
    assert(p.drop_last() =~= remove_name(l, name));
}

/// Registering a fragment name twice with different routines leaves,
/// after finalization, exactly one entry under that name, equal to the
/// second routine; every other name is untouched.
pub proof fn lemma_last_write_wins(
    l: Seq<(Seq<char>, u64)>,
    name: Seq<char>,
    first: u64,
    second: u64,
)
    ensures
        lookup(put(put(l, name, first), name, second), name) == Some(second),
        count_name(put(put(l, name, first), name, second), name) == 1,
        forall|m: Seq<char>|
            m != name ==> lookup(put(put(l, name, first), name, second), m) == lookup(l, m),
{
    lemma_put(l, name, first);
    lemma_put(put(l, name, first), name, second);
}

/// The view of an executable fragment list.
pub open spec fn entries_view(s: Seq<(String, u64)>) -> Seq<(Seq<char>, u64)> {
    s.map_values(|p: (String, u64)| (p.0@, p.1))
}

/// Replace any entry named `name` by `(name, routine)` at the end.
fn put_entry(entries: &mut Vec<(String, u64)>, name: &str, routine: u64)
    ensures
        entries_view(final(entries)@) == put(entries_view(old(entries)@), name@, routine),
{
    let ghost v0 = entries_view(entries@);
    let name_owned: String = name.to_string();
    let mut kept: Vec<(String, u64)> = Vec::new();
    let mut i: usize = 0;
    proof {
        assert(v0.take(0) =~= Seq::<(Seq<char>, u64)>::empty());
        assert(entries_view(kept@) =~= remove_name(v0.take(0), name@));
    }
    while i < entries.len()
        invariant
            0 <= i <= entries.len(),
            v0 == entries_view(entries@),
            name_owned@ == name@,
            entries_view(kept@) == remove_name(v0.take(i as int), name@),
        decreases entries.len() - i,
    {
        proof {
            assert(v0.take(i + 1).drop_last() =~= v0.take(i as int));
            assert(v0.take(i + 1).last() == v0[i as int]);
            assert(v0[i as int] == (entries@[i as int].0@, entries@[i as int].1));
        }
        if !(entries[i].0 == name_owned) {
            let kept_name: String = entries[i].0.clone();
            let kept_routine: u64 = entries[i].1;
            kept.push((kept_name, kept_routine));
            proof {
                assert(entries_view(kept@) =~= remove_name(v0.take(i as int), name@).push(
                    v0[i as int],
                ));
            }
        }
        i += 1;
    }
    proof {
        assert(v0.take(entries@.len() as int) =~= v0);
    }
    kept.push((name_owned, routine));
    *entries = kept;
    proof {
        assert(entries_view(entries@) =~= remove_name(v0, name@).push((name@, routine)));
    }
}

/// The routine under `name`, or `None`; the latest entry wins.
fn lookup_entry(entries: &Vec<(String, u64)>, name: &str) -> (r: Option<u64>)
    ensures
        r == lookup(entries_view(entries@), name@),
{
    let ghost v = entries_view(entries@);
    let name_owned: String = name.to_string();
    let mut i: usize = entries.len();
    proof {
        assert(v.take(entries@.len() as int) =~= v);
    }
    while i > 0
        invariant
            0 <= i <= entries.len(),
            v == entries_view(entries@),
            name_owned@ == name@,
            lookup(v, name@) == lookup(v.take(i as int), name@),
        decreases i,
    {
        i -= 1;
        proof {
            assert(v.take(i + 1).drop_last() =~= v.take(i as int));
            assert(v.take(i + 1).last() == v[i as int]);
            assert(v[i as int] == (entries@[i as int].0@, entries@[i as int].1));
        }
        if entries[i].0 == name_owned {
            return Some(entries[i].1);
        }
    }
    proof {
        assert(v.take(0) =~= Seq::<(Seq<char>, u64)>::empty());
    }
    None
}

/// Mutable assembler for a render graph: fragments are registered against
/// it during configuration, then `finish` consumes it into the immutable
/// graph.
pub struct RenderGraphBuilder {
    draw_targets: Vec<(String, u64)>,
    resource_providers: Vec<(String, u64)>,
}

impl View for RenderGraphBuilder {
    type V = GraphView;

    closed spec fn view(&self) -> GraphView {
        GraphView {
            draw_targets: entries_view(self.draw_targets@),
            resource_providers: entries_view(self.resource_providers@),
        }
    }
}

impl RenderGraphBuilder {
    /// Register a draw target; a name seen before, for this fragment kind,
    /// is overwritten (last registration wins).
    pub fn add_draw_target(&mut self, name: &str, routine: u64)
        ensures
            final(self)@.draw_targets == put(old(self)@.draw_targets, name@, routine),
            final(self)@.resource_providers == old(self)@.resource_providers,
    {
        put_entry(&mut self.draw_targets, name, routine);
    }

    /// Register a resource provider; a name seen before, for this fragment
    /// kind, is overwritten (last registration wins).
    pub fn add_resource_provider(&mut self, name: &str, routine: u64)
        ensures
            final(self)@.resource_providers == put(old(self)@.resource_providers, name@, routine),
            final(self)@.draw_targets == old(self)@.draw_targets,
    {
        put_entry(&mut self.resource_providers, name, routine);
    }

    /// Consume the builder into the immutable graph with the same content.
    pub fn finish(self) -> (g: RenderGraph)
        ensures
            g@ == self@,
    {
        RenderGraph {
            draw_targets: self.draw_targets,
            resource_providers: self.resource_providers,
        }
    }
}

/// The finalized, immutable render graph: a mapping from draw-target name
/// to routine and a mapping from resource-provider name to routine.
pub struct RenderGraph {
    draw_targets: Vec<(String, u64)>,
    resource_providers: Vec<(String, u64)>,
}

impl View for RenderGraph {
    type V = GraphView;

    closed spec fn view(&self) -> GraphView {
        GraphView {
            draw_targets: entries_view(self.draw_targets@),
            resource_providers: entries_view(self.resource_providers@),
        }
    }
}

impl Default for RenderGraph {
    /// The empty graph.
    fn default() -> (g: RenderGraph)
        ensures
            g@.draw_targets == Seq::<(Seq<char>, u64)>::empty(),
            g@.resource_providers == Seq::<(Seq<char>, u64)>::empty(),
    {
        let g = RenderGraph { draw_targets: Vec::new(), resource_providers: Vec::new() };
        proof {
            assert(g@.draw_targets =~= Seq::<(Seq<char>, u64)>::empty());
            assert(g@.resource_providers =~= Seq::<(Seq<char>, u64)>::empty());
        }
        g
    }
}

impl RenderGraph {
    /// Reopen the graph as a builder pre-populated with its fragments, for
    /// the visit-and-return configuration protocol.
    pub fn build(self) -> (b: RenderGraphBuilder)
        ensures
            b@ == self@,
    {
        RenderGraphBuilder {
            draw_targets: self.draw_targets,
            resource_providers: self.resource_providers,
        }
    }

    /// The draw routine registered under `name`, if any.
    pub fn draw_target(&self, name: &str) -> (r: Option<u64>)
        ensures
            r == lookup(self@.draw_targets, name@),
    {
        lookup_entry(&self.draw_targets, name)
    }

    /// The resource-production routine registered under `name`, if any.
    pub fn resource_provider(&self, name: &str) -> (r: Option<u64>)
        ensures
            r == lookup(self@.resource_providers, name@),
    {
        lookup_entry(&self.resource_providers, name)
    }

    /// How many draw-target entries the graph holds.
    pub fn draw_target_count(&self) -> (n: usize)
        ensures
            n == self@.draw_targets.len(),
    {
        self.draw_targets.len()
    }

    /// How many resource-provider entries the graph holds.
    pub fn resource_provider_count(&self) -> (n: usize)
        ensures
            n == self@.resource_providers.len(),
    {
        self.resource_providers.len()
    }
}

} // verus!
