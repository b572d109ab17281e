//! Properties of the library as a whole, proved over the models that the
//! operations' contracts speak of.
use vstd::prelude::*;

use crate::artifact::{has_hidden_wisdom, ArtifactView};
use crate::component::ComponentView;
use crate::phase::TransformPhase;
use crate::event::EventView;
use crate::log::{lookup, is_completed_view, is_transforming_view, 
    first_named, hidden_remaining, index_of, lemma_first_named_unique, names_unique, sum_of,
    total_discoveries, created_artifact, LogOp, LogView,
};

verus! {

// ----- helper facts about sequences -----

/// Replacing one element changes the length of a filter by what the old and
/// the new element contribute.
proof fn lemma_filter_update_len(
    s: Seq<ComponentView>,
    p: spec_fn(ComponentView) -> bool,
    i: int,
    x: ComponentView,
)
    requires
        0 <= i < s.len(),
    ensures
        s.update(i, x).filter(p).len() + (if p(s[i]) { 1int } else { 0int })
            == s.filter(p).len() + (if p(x) { 1int } else { 0int }),
    decreases s.len(),
{
    reveal_with_fuel(Seq::<_>::filter, 1);
    let t = s.update(i, x);
    if i == s.len() - 1 {
        assert(t.drop_last() =~= s.drop_last());
    } else {
        assert(t.drop_last() =~= s.drop_last().update(i, x));
        lemma_filter_update_len(s.drop_last(), p, i, x);
    }
}

/// Replacing one artifact changes a sum by what the old and the new
/// artifact contribute.
proof fn lemma_sum_of_update(
    arts: Seq<ArtifactView>,
    f: spec_fn(ArtifactView) -> nat,
    i: int,
    a: ArtifactView,
)
    requires
        0 <= i < arts.len(),
    ensures
        sum_of(arts.update(i, a), f) + f(arts[i]) == sum_of(arts, f) + f(a),
    decreases arts.len(),
{
    let t = arts.update(i, a);
    if i == arts.len() - 1 {
        assert(t.drop_last() =~= arts.drop_last());
    } else {
        assert(t.drop_last() =~= arts.drop_last().update(i, a));
        lemma_sum_of_update(arts.drop_last(), f, i, a);
    }
}

/// Replacing an artifact by one of the same name leaves every lookup position
/// unchanged.
proof fn lemma_index_of_same_names(arts: Seq<ArtifactView>, i: int, a: ArtifactView, n: Seq<char>)
    requires
        0 <= i < arts.len(),
        a.name == arts[i].name,
    ensures
        index_of(arts.update(i, a), n) == index_of(arts, n),
{
    let t = arts.update(i, a);
    assert forall|k: int| first_named(t, n, k) <==> first_named(arts, n, k) by {
        if 0 <= k < arts.len() {
            assert forall|j: int| 0 <= j < k implies t[j].name == arts[j].name by {}
        }
    }
    match index_of(arts, n) {
        Some(k) => {
            assert(first_named(arts, n, choose|k: int| first_named(arts, n, k)));
            lemma_first_named_unique(t, n, k);
        },
        None => {
            if exists|k: int| first_named(t, n, k) {
                let k = choose|k: int| first_named(t, n, k);
                assert(first_named(arts, n, k));
            }
        },
    }
}

// ----- artifacts -----

/// Hidden wisdom is revealed only the first time a component is examined:
/// examining the same component again reveals nothing.
pub proof fn lemma_wisdom_revealed_once(a: ArtifactView, idx: int)
    ensures
        a.examined(idx).0.examined(idx).1 is None,
{
}

/// Examination moves wisdom from hidden to discovered: the number of
/// discoveries plus the number of components with hidden wisdom is unchanged.
pub proof fn lemma_examine_conserves_wisdom(a: ArtifactView, idx: int)
    ensures
        a.examined(idx).0.discoveries.len() + a.examined(idx).0.hidden_count()
            == a.discoveries.len() + a.hidden_count(),
{
    if 0 <= idx < a.components.len() && has_hidden_wisdom(a.components[idx]) {
        let c = a.components[idx];
        lemma_filter_update_len(
            a.components,
            |c: ComponentView| has_hidden_wisdom(c),
            idx,
            ComponentView { hidden_wisdom: None, ..c },
        );
    }
}

/// A rebuild succeeds exactly when more components yielded a discovery than
/// half their number (integer division); a failed rebuild changes nothing.
pub proof fn lemma_rebuild_gate(a: ArtifactView, new_form: Seq<char>, tick: u64)
    ensures
        a.rebuilt(new_form, tick).1 <==> a.discoveries.len() > a.components.len() / 2,
        !a.rebuilt(new_form, tick).1 ==> a.rebuilt(new_form, tick).0 == a,
{
}

/// `b` has the same name, components, discoveries and potential forms as `a`.
pub open spec fn same_contents(a: ArtifactView, b: ArtifactView) -> bool {
    &&& b.name == a.name
    &&& b.components == a.components
    &&& b.discoveries == a.discoveries
    &&& b.potential_forms == a.potential_forms
}

/// Examining component `idx` returns exactly the wisdom that component
/// carried before the call, whatever was discovered earlier: nothing when
/// the index is out of range or the component carries no wisdom. Found
/// wisdom is appended to the discoveries and taken from that component
/// alone; nothing else about the artifact changes.
pub proof fn lemma_examine_returns_prior_wisdom(a: ArtifactView, idx: int)
    ensures
        0 <= idx < a.components.len() ==> a.examined(idx).1 == a.components[idx].hidden_wisdom,
        !(0 <= idx < a.components.len()) ==> a.examined(idx).1 is None,
        a.examined(idx).1 is None ==> a.examined(idx).0 == a,
        a.examined(idx).1 matches Some(w) ==> {
            let b = a.examined(idx).0;
            &&& b.discoveries == a.discoveries.push(w)
            &&& b.discoveries.last() == w
            &&& b.components.len() == a.components.len()
            &&& b.components[idx].hidden_wisdom is None
            &&& b.components[idx].name == a.components[idx].name
            &&& b.components[idx].condition_bits == a.components[idx].condition_bits
            &&& forall|j: int|
                0 <= j < a.components.len() && j != idx ==> b.components[j] == a.components[j]
            &&& b.name == a.name
            &&& b.phase == a.phase
            &&& b.original_form == a.original_form
            &&& b.potential_forms == a.potential_forms
            &&& b.destruction_tick == a.destruction_tick
            &&& b.rebuild_tick == a.rebuild_tick
        },
{
}

/// A successful rebuild puts the artifact in `Rebuilding`, gives it the new
/// form and records the tick, keeping its contents and destruction tick.
pub proof fn lemma_rebuild_success_effect(a: ArtifactView, new_form: Seq<char>, tick: u64)
    ensures
        a.rebuilt(new_form, tick).1 ==> {
            let b = a.rebuilt(new_form, tick).0;
            &&& b.phase == TransformPhase::Rebuilding
            &&& b.original_form == new_form
            &&& b.rebuild_tick == Some(tick)
            &&& b.destruction_tick == a.destruction_tick
            &&& same_contents(a, b)
        },
{
}

/// Deconstruction puts the artifact in `Examining` and records the tick,
/// changing nothing else.
pub proof fn lemma_deconstruct_effect(a: ArtifactView, tick: u64)
    ensures
        a.deconstructed(tick).phase == TransformPhase::Examining,
        a.deconstructed(tick).destruction_tick == Some(tick),
        a.deconstructed(tick).rebuild_tick == a.rebuild_tick,
        a.deconstructed(tick).original_form == a.original_form,
        same_contents(a, a.deconstructed(tick)),
{
}

/// A phase change sets the phase and changes nothing else.
pub proof fn lemma_phase_change_effect(a: ArtifactView, phase: TransformPhase)
    ensures
        a.with_phase(phase).phase == phase,
        a.with_phase(phase).original_form == a.original_form,
        a.with_phase(phase).destruction_tick == a.destruction_tick,
        a.with_phase(phase).rebuild_tick == a.rebuild_tick,
        same_contents(a, a.with_phase(phase)),
{
}

/// A transforming phase is one strictly between whole and transformed.
pub proof fn lemma_transforming_phases(p: TransformPhase)
    ensures
        p.spec_is_transforming() <==> (p == TransformPhase::Examining || p
            == TransformPhase::Scattered || p == TransformPhase::Understanding || p
            == TransformPhase::Rebuilding),
        !TransformPhase::Whole.spec_is_transforming(),
        !TransformPhase::Transformed.spec_is_transforming(),
{
}

/// The hidden count is the number of components still carrying wisdom: at
/// most the number of components, and one less after wisdom is found.
pub proof fn lemma_hidden_count_bounds(a: ArtifactView, idx: int)
    ensures
        a.hidden_count() <= a.components.len(),
        (forall|j: int| 0 <= j < a.components.len() ==> a.components[j].hidden_wisdom is None)
            ==> a.hidden_count() == 0,
        a.examined(idx).1 is Some ==> a.examined(idx).0.hidden_count() + 1 == a.hidden_count(),
{
    a.components.lemma_filter_len(|c: ComponentView| has_hidden_wisdom(c));
    if forall|j: int| 0 <= j < a.components.len() ==> a.components[j].hidden_wisdom is None {
        let h = a.hidden();
        if h.len() > 0 {
            a.components.lemma_filter_pred(|c: ComponentView| has_hidden_wisdom(c), 0);
            assert(a.components.contains(h[0])) by {
                lemma_filter_member(a.components, |c: ComponentView| has_hidden_wisdom(c), 0);
            }
        }
    }
    lemma_examine_conserves_wisdom(a, idx);
}

/// Every element of a filter comes from the filtered sequence.
proof fn lemma_filter_member<A>(s: Seq<A>, p: spec_fn(A) -> bool, i: int)
    requires
        0 <= i < s.filter(p).len(),
    ensures
        s.contains(s.filter(p)[i]),
    decreases s.len(),
{
    reveal_with_fuel(Seq::<_>::filter, 1);
    let f = s.drop_last().filter(p);
    if i < f.len() {
        lemma_filter_member(s.drop_last(), p, i);
        let k = choose|k: int| 0 <= k < s.drop_last().len() && s.drop_last()[k] == f[i];
        assert(s[k] == s.filter(p)[i]);
    } else {
        assert(s[s.len() - 1] == s.filter(p)[i]);
    }
}

/// A new artifact is whole, with no components, discoveries or ticks, and
/// keeps the name, original form and potential forms it was given.
pub proof fn lemma_fresh_artifact(
    name: Seq<char>,
    original_form: Seq<char>,
    potential_forms: Seq<Seq<char>>,
)
    ensures
        ({
            let a = ArtifactView::fresh(name, original_form, potential_forms);
            &&& a.name == name
            &&& a.phase == TransformPhase::Whole
            &&& a.components.len() == 0
            &&& a.discoveries.len() == 0
            &&& a.original_form == original_form
            &&& a.potential_forms == potential_forms
            &&& a.destruction_tick is None
            &&& a.rebuild_tick is None
        }),
{
}

// ----- logs -----

/// A new log is at tick zero with no artifacts and no events, so every
/// lookup finds nothing.
pub proof fn lemma_empty_log(name: Seq<char>)
    ensures
        LogView::empty().tick == 0,
        LogView::empty().artifacts.len() == 0,
        LogView::empty().events.len() == 0,
        LogView::empty().get(name) is None,
{
    if exists|i: int| first_named(LogView::empty().artifacts, name, i) {
        let i = choose|i: int| first_named(LogView::empty().artifacts, name, i);
        assert(first_named(LogView::empty().artifacts, name, i));
    }
}

/// Reading an artifact back after creating it gives the created artifact,
/// whole and with nothing discovered; other names read as before.
pub proof fn lemma_create_then_get(
    s: LogView,
    name: Seq<char>,
    components: Seq<ComponentView>,
    potential_forms: Seq<Seq<char>>,
    other: Seq<char>,
)
    ensures
        s.created(name, components, potential_forms).get(name) == Some(
            created_artifact(name, components, potential_forms),
        ),
        other != name ==> s.created(name, components, potential_forms).get(other) == s.get(
            other,
        ),
        ({
            let a = created_artifact(name, components, potential_forms);
            &&& a.name == name
            &&& a.phase == TransformPhase::Whole
            &&& a.components == components
            &&& a.discoveries.len() == 0
            &&& a.original_form == name
            &&& a.potential_forms == potential_forms
            &&& a.destruction_tick is None
            &&& a.rebuild_tick is None
        }),
        s.created(name, components, potential_forms).tick == s.tick,
        s.created(name, components, potential_forms).events == s.events,
{
    let a = created_artifact(name, components, potential_forms);
    let t = s.created(name, components, potential_forms);
    match index_of(s.artifacts, name) {
        Some(i) => {
            assert(first_named(s.artifacts, name, choose|k: int| first_named(s.artifacts, name, k)));
            lemma_index_of_same_names(s.artifacts, i, a, name);
            lemma_index_of_same_names(s.artifacts, i, a, other);
        },
        None => {
            let n = s.artifacts.len() as int;
            assert forall|j: int| 0 <= j < n implies s.artifacts[j].name != name by {
                if s.artifacts[j].name == name {
                    lemma_first_position_exists(s.artifacts, name, j);
                }
            }
            assert(first_named(t.artifacts, name, n));
            lemma_first_named_unique(t.artifacts, name, n);
            if other != name {
                assert forall|k: int| first_named(t.artifacts, other, k) <==> first_named(
                    s.artifacts,
                    other,
                    k,
                ) by {
                    if 0 <= k <= n {
                        assert forall|j: int| 0 <= j < k implies t.artifacts[j].name
                            == s.artifacts[j].name by {}
                    }
                }
                match index_of(s.artifacts, other) {
                    Some(k) => {
                        assert(first_named(
                            s.artifacts,
                            other,
                            choose|k: int| first_named(s.artifacts, other, k),
                        ));
                        lemma_first_named_unique(t.artifacts, other, k);
                    },
                    None => {
                        if exists|k: int| first_named(t.artifacts, other, k) {
                            let k = choose|k: int| first_named(t.artifacts, other, k);
                            assert(first_named(s.artifacts, other, k));
                        }
                    },
                }
            }
        },
    }
}

/// When some artifact carries the name, a first one does.
proof fn lemma_first_position_exists(arts: Seq<ArtifactView>, name: Seq<char>, j: int)
    requires
        0 <= j < arts.len(),
        arts[j].name == name,
    ensures
        index_of(arts, name) is Some,
    decreases j,
{
    if forall|m: int| 0 <= m < j ==> arts[m].name != name {
        assert(first_named(arts, name, j));
    } else {
        let m = choose|m: int| 0 <= m < j && arts[m].name == name;
        lemma_first_position_exists(arts, name, m);
    }
}

/// The position a lookup finds holds an artifact of that name.
proof fn lemma_index_of_some(arts: Seq<ArtifactView>, name: Seq<char>)
    requires
        index_of(arts, name) is Some,
    ensures
        first_named(arts, name, index_of(arts, name)->0),
{
    assert(first_named(arts, name, choose|k: int| first_named(arts, name, k)));
}

/// A lookup that finds nothing means that no artifact has that name.
proof fn lemma_index_of_none(arts: Seq<ArtifactView>, name: Seq<char>)
    requires
        index_of(arts, name) is None,
    ensures
        forall|j: int| 0 <= j < arts.len() ==> arts[j].name != name,
{
    assert forall|j: int| 0 <= j < arts.len() implies arts[j].name != name by {
        if arts[j].name == name {
            lemma_first_position_exists(arts, name, j);
        }
    }
}

/// Replacing an artifact by one with the same name and the same wisdom
/// counts leaves the log's totals unchanged.
proof fn lemma_totals_after_update(arts: Seq<ArtifactView>, i: int, a: ArtifactView)
    requires
        0 <= i < arts.len(),
        a.discoveries.len() + a.hidden_count() == arts[i].discoveries.len()
            + arts[i].hidden_count(),
    ensures
        total_discoveries(arts.update(i, a)) + hidden_remaining(arts.update(i, a))
            == total_discoveries(arts) + hidden_remaining(arts),
{
    lemma_sum_of_update(arts, |x: ArtifactView| x.discoveries.len(), i, a);
    lemma_sum_of_update(arts, |x: ArtifactView| x.hidden_count(), i, a);
}

/// The event log is append-only: every operation keeps the events recorded
/// so far, in order, and may only add new ones after them.
pub proof fn lemma_events_append_only(s: LogView, op: LogOp)
    ensures
        s.events.len() <= s.step(op).events.len(),
        s.step(op).events.subrange(0, s.events.len() as int) == s.events,
{
    let t = s.step(op);
    assert(t.events.subrange(0, s.events.len() as int) =~= s.events);
}

/// The tick advances by one on each deconstruction and each rebuild
/// attempt, and stays put on every other operation.
pub proof fn lemma_tick_counts_attempts(s: LogView, op: LogOp)
    requires
        s.tick < u64::MAX,
    ensures
        s.step(op).tick == match op {
            LogOp::Deconstruct { .. } | LogOp::Rebuild { .. } => s.tick + 1,
            _ => s.tick as int,
        },
        s.step(op).tick >= s.tick,
{
}

/// Every operation keeps artifact names unique.
pub proof fn lemma_step_preserves_unique_names(s: LogView, op: LogOp)
    requires
        s.wf(),
    ensures
        s.step(op).wf(),
{
    let t = s.step(op);
    let n = match op {
        LogOp::Create { name, .. } => name,
        LogOp::Deconstruct { name } => name,
        LogOp::Examine { name, .. } => name,
        LogOp::Scatter { name } => name,
        LogOp::Understand { name } => name,
        LogOp::Rebuild { name, .. } => name,
        LogOp::Complete { name } => name,
    };
    match index_of(s.artifacts, n) {
        Some(i) => {
            lemma_index_of_some(s.artifacts, n);
            assert(t.artifacts.len() == s.artifacts.len());
            assert forall|j: int| 0 <= j < t.artifacts.len() implies t.artifacts[j].name
                == s.artifacts[j].name by {}
        },
        None => {
            lemma_index_of_none(s.artifacts, n);
            if op is Create {
                assert forall|j: int| 0 <= j < s.artifacts.len() implies t.artifacts[j]
                    == s.artifacts[j] by {}
            } else {
                assert(t.artifacts == s.artifacts);
            }
        },
    }
}

/// Apart from creation, which replaces or adds a whole artifact, no
/// operation creates or destroys wisdom: the discoveries plus the hidden
/// wisdom still to be found stay constant across the log.
pub proof fn lemma_step_conserves_wisdom(s: LogView, op: LogOp)
    requires
        !(op is Create),
    ensures
        total_discoveries(s.step(op).artifacts) + hidden_remaining(s.step(op).artifacts)
            == total_discoveries(s.artifacts) + hidden_remaining(s.artifacts),
{
    let n = match op {
        LogOp::Create { name, .. } => name,
        LogOp::Deconstruct { name } => name,
        LogOp::Examine { name, .. } => name,
        LogOp::Scatter { name } => name,
        LogOp::Understand { name } => name,
        LogOp::Rebuild { name, .. } => name,
        LogOp::Complete { name } => name,
    };
    match index_of(s.artifacts, n) {
        Some(i) => {
            lemma_index_of_some(s.artifacts, n);
            let a = s.artifacts[i];
            match op {
                LogOp::Examine { idx, .. } => {
                    lemma_examine_conserves_wisdom(a, idx);
                    if 0 <= idx < a.components.len() {
                        lemma_totals_after_update(s.artifacts, i, a.examined(idx).0);
                    }
                },
                LogOp::Deconstruct { .. } => {
                    let t = (s.tick + 1) as u64;
                    lemma_totals_after_update(s.artifacts, i, a.deconstructed(t));
                },
                LogOp::Rebuild { new_form, .. } => {
                    let t = (s.tick + 1) as u64;
                    lemma_totals_after_update(s.artifacts, i, a.rebuilt(new_form, t).0);
                },
                LogOp::Scatter { .. } => {
                    lemma_totals_after_update(s.artifacts, i, a.with_phase(
                        crate::phase::TransformPhase::Scattered,
                    ));
                },
                LogOp::Understand { .. } => {
                    lemma_totals_after_update(s.artifacts, i, a.with_phase(
                        crate::phase::TransformPhase::Understanding,
                    ));
                },
                LogOp::Complete { .. } => {
                    lemma_totals_after_update(s.artifacts, i, a.with_phase(
                        crate::phase::TransformPhase::Transformed,
                    ));
                },
                LogOp::Create { .. } => {},
            }
        },
        None => {},
    }
}

/// Examining the same component of the same artifact twice reveals its
/// wisdom at most once.
pub proof fn lemma_log_wisdom_revealed_once(s: LogView, name: Seq<char>, idx: int)
    ensures
        s.examined(name, idx).0.examined(name, idx).1 is None,
{
    match index_of(s.artifacts, name) {
        Some(i) => {
            lemma_index_of_some(s.artifacts, name);
            let a = s.artifacts[i];
            if 0 <= idx < a.components.len() {
                lemma_index_of_same_names(s.artifacts, i, a.examined(idx).0, name);
                lemma_wisdom_revealed_once(a, idx);
            }
        },
        None => {},
    }
}

/// A rebuild through the log succeeds exactly when the artifact exists and
/// passes the rebuild gate.
pub proof fn lemma_log_rebuild_gate(s: LogView, name: Seq<char>, new_form: Seq<char>)
    ensures
        s.rebuilt(name, new_form).1 <==> (s.get(name) matches Some(a) && a.can_rebuild()),
{
}

/// The artifact name an operation is about.
pub open spec fn target(op: LogOp) -> Seq<char> {
    match op {
        LogOp::Create { name, .. } => name,
        LogOp::Deconstruct { name } => name,
        LogOp::Examine { name, .. } => name,
        LogOp::Scatter { name } => name,
        LogOp::Understand { name } => name,
        LogOp::Rebuild { name, .. } => name,
        LogOp::Complete { name } => name,
    }
}

/// Looking up after replacing an artifact by one of the same name finds the
/// replacement at its position and the old artifacts elsewhere.
proof fn lemma_get_after_update(arts: Seq<ArtifactView>, i: int, a: ArtifactView, m: Seq<char>)
    requires
        first_named(arts, arts[i].name, i),
        a.name == arts[i].name,
    ensures
        lookup(arts.update(i, a), m) == (if m == arts[i].name {
            Some(a)
        } else {
            lookup(arts, m)
        }),
{
    lemma_index_of_same_names(arts, i, a, m);
    lemma_first_named_unique(arts, arts[i].name, i);
    match index_of(arts, m) {
        Some(k) => {
            lemma_index_of_some(arts, m);
            if m == arts[i].name {
                if k != i {
                    if k < i {
                    } else {
                        assert(arts[i].name != m);
                    }
                }
            }
        },
        None => {
            lemma_index_of_none(arts, m);
        },
    }
}

/// The position a lookup of an existing artifact finds.
proof fn lemma_get_position(s: LogView, name: Seq<char>)
    requires
        s.get(name) is Some,
    ensures
        index_of(s.artifacts, name) is Some,
        first_named(s.artifacts, name, index_of(s.artifacts, name)->0),
        s.get(name) == Some(s.artifacts[index_of(s.artifacts, name)->0]),
{
    lemma_index_of_some(s.artifacts, name);
}

/// Examining through the log returns the wisdom the examined component
/// carried before the call and records it: first the examination (naming
/// the component and what it yielded), then, when wisdom was found, the
/// wisdom itself. Afterwards the artifact reads back as examined; the tick
/// does not move. A missing artifact or component changes nothing.
pub proof fn lemma_log_examine_effect(s: LogView, name: Seq<char>, idx: int)
    ensures
        match s.get(name) {
            Some(a) => if 0 <= idx < a.components.len() {
                let t = s.examined(name, idx).0;
                let found = s.examined(name, idx).1;
                &&& found == a.components[idx].hidden_wisdom
                &&& t.get(name) == Some(a.examined(idx).0)
                &&& t.tick == s.tick
                &&& t.events.len() == s.events.len() + (if found is Some { 2int } else { 1int })
                &&& t.events[s.events.len() as int] == (EventView::ComponentExamined {
                    artifact: name,
                    component: a.components[idx].name,
                    discovery: found,
                })
                &&& found matches Some(w) ==> t.events.last() == (EventView::WisdomFound {
                    artifact: name,
                    wisdom: w,
                })
            } else {
                s.examined(name, idx) == (s, None::<Seq<char>>)
            },
            None => s.examined(name, idx) == (s, None::<Seq<char>>),
        },
{
    if s.get(name) is Some {
        lemma_get_position(s, name);
        let i = index_of(s.artifacts, name)->0;
        let a = s.artifacts[i];
        if 0 <= idx < a.components.len() {
            lemma_get_after_update(s.artifacts, i, a.examined(idx).0, name);
        }
    }
}

/// Wisdom found through the log adds exactly one discovery and removes
/// exactly one hidden entry from the log's totals.
pub proof fn lemma_log_examine_counts(s: LogView, name: Seq<char>, idx: int)
    ensures
        s.examined(name, idx).1 is Some ==> {
            &&& total_discoveries(s.examined(name, idx).0.artifacts) == total_discoveries(
                s.artifacts,
            ) + 1
            &&& hidden_remaining(s.examined(name, idx).0.artifacts) + 1 == hidden_remaining(
                s.artifacts,
            )
        },
{
    if s.examined(name, idx).1 is Some {
        let i = index_of(s.artifacts, name)->0;
        lemma_index_of_some(s.artifacts, name);
        let a = s.artifacts[i];
        let b = a.examined(idx).0;
        lemma_hidden_count_bounds(a, idx);
        lemma_sum_of_update(s.artifacts, |x: ArtifactView| x.discoveries.len(), i, b);
        lemma_sum_of_update(s.artifacts, |x: ArtifactView| x.hidden_count(), i, b);
    }
}

/// A rebuild through the log advances the tick by one and records the
/// attempt with the outcome it returns. It succeeds exactly when the
/// artifact exists and more of its components yielded a discovery than half
/// their number; then the completed transformation follows, from the form
/// the artifact had to the new one, and the artifact reads back rebuilt at
/// the new tick. A failed rebuild changes no artifact.
pub proof fn lemma_log_rebuild_effect(s: LogView, name: Seq<char>, new_form: Seq<char>)
    requires
        s.tick < u64::MAX,
    ensures
        ({
            let t = s.rebuilt(name, new_form).0;
            let ok = s.rebuilt(name, new_form).1;
            &&& t.tick == s.tick + 1
            &&& ok <==> (s.get(name) matches Some(a) && a.discoveries.len() > a.components.len()
                / 2)
            &&& t.events.len() == s.events.len() + (if ok { 2int } else { 1int })
            &&& t.events[s.events.len() as int] == (EventView::RebuildAttempted {
                artifact: name,
                success: ok,
            })
            &&& !ok ==> t.artifacts == s.artifacts
            &&& ok ==> (s.get(name) matches Some(a) && t.events.last() == (
            EventView::TransformationComplete {
                artifact: name,
                old_form: a.original_form,
                new_form,
            }) && t.get(name) == Some(a.rebuilt(new_form, t.tick).0))
        }),
{
    if s.get(name) is Some {
        lemma_get_position(s, name);
        let i = index_of(s.artifacts, name)->0;
        let a = s.artifacts[i];
        let t = (s.tick + 1) as u64;
        lemma_get_after_update(s.artifacts, i, a.rebuilt(new_form, t).0, name);
    }
}

/// Deconstruction through the log advances the tick by one; an existing
/// artifact reads back deconstructed at the new tick and the start is
/// recorded, while for a missing one nothing else changes.
pub proof fn lemma_log_deconstruct_effect(s: LogView, name: Seq<char>)
    requires
        s.tick < u64::MAX,
    ensures
        s.deconstructed(name).tick == s.tick + 1,
        match s.get(name) {
            Some(a) => {
                &&& s.deconstructed(name).get(name) == Some(a.deconstructed((s.tick + 1) as u64))
                &&& s.deconstructed(name).events == s.events.push(
                    EventView::DeconstructionStarted(name),
                )
            },
            None => {
                &&& s.deconstructed(name).artifacts == s.artifacts
                &&& s.deconstructed(name).events == s.events
            },
        },
{
    if s.get(name) is Some {
        lemma_get_position(s, name);
        let i = index_of(s.artifacts, name)->0;
        let a = s.artifacts[i];
        lemma_get_after_update(s.artifacts, i, a.deconstructed((s.tick + 1) as u64), name);
    }
}

/// A phase change through the log moves an existing artifact to that phase
/// and records nothing; the tick does not move.
pub proof fn lemma_log_phase_change_effect(s: LogView, name: Seq<char>, phase: TransformPhase)
    ensures
        s.moved(name, phase).tick == s.tick,
        s.moved(name, phase).events == s.events,
        match s.get(name) {
            Some(a) => s.moved(name, phase).get(name) == Some(a.with_phase(phase)),
            None => s.moved(name, phase) == s,
        },
{
    if s.get(name) is Some {
        lemma_get_position(s, name);
        let i = index_of(s.artifacts, name)->0;
        lemma_get_after_update(s.artifacts, i, s.artifacts[i].with_phase(phase), name);
    }
}

/// An operation on one artifact leaves every other artifact as it reads.
pub proof fn lemma_step_frame(s: LogView, op: LogOp, other: Seq<char>)
    requires
        other != target(op),
    ensures
        s.step(op).get(other) == s.get(other),
{
    let n = target(op);
    if let LogOp::Create { name, components, potential_forms } = op {
        lemma_create_then_get(s, name, components, potential_forms, other);
    } else if index_of(s.artifacts, n) is Some {
        lemma_index_of_some(s.artifacts, n);
        let i = index_of(s.artifacts, n)->0;
        let t = s.step(op);
        if t.artifacts != s.artifacts {
            lemma_get_after_update(s.artifacts, i, t.artifacts[i], other);
            assert(t.artifacts =~= s.artifacts.update(i, t.artifacts[i]));
        }
    }
}

/// The events an operation records all concern the artifact it is about:
/// listed for that artifact they are exactly the new events, after the ones
/// listed before; for any other artifact the list does not change.
pub proof fn lemma_events_for_step(s: LogView, op: LogOp, other: Seq<char>)
    ensures
        s.step(op).events_for(target(op)) == s.events_for(target(op)) + s.step(op).events.subrange(
            s.events.len() as int,
            s.step(op).events.len() as int,
        ),
        other != target(op) ==> s.step(op).events_for(other) == s.events_for(other),
{
    let n = target(op);
    let t = s.step(op);
    lemma_events_append_only(s, op);
    let fresh = t.events.subrange(s.events.len() as int, t.events.len() as int);
    assert(t.events =~= s.events + fresh);
    assert(fresh.len() <= 2);
    assert forall|k: int| 0 <= k < fresh.len() implies fresh[k].concerns(n) && (other != n
        ==> !fresh[k].concerns(other)) by {}
    reveal_with_fuel(Seq::<_>::filter, 3);
    let pn = |e: EventView| e.concerns(n);
    let po = |e: EventView| e.concerns(other);
    Seq::filter_distributes_over_add(s.events, fresh, pn);
    Seq::filter_distributes_over_add(s.events, fresh, po);
    if fresh.len() == 0 {
        assert(fresh.filter(pn) =~= fresh);
        assert(fresh.filter(po) =~= fresh);
    } else if fresh.len() == 1 {
        assert(fresh.drop_last() =~= Seq::<EventView>::empty());
        assert(fresh.filter(pn) =~= fresh);
        if other != n {
            assert(fresh.filter(po) =~= Seq::<EventView>::empty());
        }
    } else {
        assert(fresh.drop_last().drop_last() =~= Seq::<EventView>::empty());
        assert(fresh.drop_last().filter(pn) =~= fresh.drop_last());
        assert(fresh.filter(pn) =~= fresh);
        if other != n {
            assert(fresh.drop_last().filter(po) =~= Seq::<EventView>::empty());
            assert(fresh.filter(po) =~= Seq::<EventView>::empty());
        }
    }
}

/// The completed artifacts are exactly the transformed ones: every listed
/// artifact is transformed, every transformed artifact is listed, and there
/// are no more of them than artifacts.
pub proof fn lemma_completed_members(s: LogView)
    ensures
        forall|i: int|
            0 <= i < s.completed().len() ==> s.completed()[i].phase == TransformPhase::Transformed,
        forall|j: int|
            0 <= j < s.artifacts.len() && s.artifacts[j].phase == TransformPhase::Transformed
                ==> s.completed().contains(s.artifacts[j]),
        forall|i: int| 0 <= i < s.completed().len() ==> s.artifacts.contains(s.completed()[i]),
        s.completed().len() <= s.artifacts.len(),
{
    let p = |a: ArtifactView| is_completed_view(a);
    s.artifacts.lemma_filter_len(p);
    assert forall|i: int| 0 <= i < s.completed().len() implies s.completed()[i].phase
        == TransformPhase::Transformed && s.artifacts.contains(s.completed()[i]) by {
        s.artifacts.lemma_filter_pred(p, i);
        lemma_filter_member(s.artifacts, p, i);
    }
    assert forall|j: int|
        0 <= j < s.artifacts.len() && s.artifacts[j].phase
            == TransformPhase::Transformed implies s.completed().contains(s.artifacts[j]) by {
        s.artifacts.lemma_filter_contains(p, j);
    }
}

/// The transforming artifacts are exactly those examining, scattered,
/// understanding or rebuilding: every listed artifact is in one of these
/// phases and every artifact in one of them is listed.
pub proof fn lemma_transforming_members(s: LogView)
    ensures
        forall|i: int|
            0 <= i < s.transforming().len() ==> (#[trigger] s.transforming()[i].phase
                == TransformPhase::Examining || s.transforming()[i].phase
                == TransformPhase::Scattered || s.transforming()[i].phase
                == TransformPhase::Understanding || s.transforming()[i].phase
                == TransformPhase::Rebuilding),
        forall|j: int|
            0 <= j < s.artifacts.len() && (s.artifacts[j].phase == TransformPhase::Examining
                || s.artifacts[j].phase == TransformPhase::Scattered || s.artifacts[j].phase
                == TransformPhase::Understanding || s.artifacts[j].phase
                == TransformPhase::Rebuilding) ==> s.transforming().contains(s.artifacts[j]),
        forall|i: int|
            0 <= i < s.transforming().len() ==> s.artifacts.contains(s.transforming()[i]),
{
    let p = |a: ArtifactView| is_transforming_view(a);
    assert forall|i: int| 0 <= i < s.transforming().len() implies (#[trigger] s.transforming()[i].phase
        == TransformPhase::Examining || s.transforming()[i].phase == TransformPhase::Scattered
        || s.transforming()[i].phase == TransformPhase::Understanding
        || s.transforming()[i].phase == TransformPhase::Rebuilding) && s.artifacts.contains(
        s.transforming()[i],
    ) by {
        s.artifacts.lemma_filter_pred(p, i);
        lemma_filter_member(s.artifacts, p, i);
    }
    assert forall|j: int|
        0 <= j < s.artifacts.len() && (s.artifacts[j].phase == TransformPhase::Examining
            || s.artifacts[j].phase == TransformPhase::Scattered || s.artifacts[j].phase
            == TransformPhase::Understanding || s.artifacts[j].phase
            == TransformPhase::Rebuilding) implies s.transforming().contains(s.artifacts[j]) by {
        s.artifacts.lemma_filter_contains(p, j);
    }
}

} // verus!
