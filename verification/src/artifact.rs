use vstd::prelude::*;

use crate::component::{Component, ComponentView};
use crate::phase::TransformPhase;

verus! {

/// Something whole that is taken apart, understood and rebuilt.
#[derive(Debug, Clone)]
pub struct Artifact {
    pub name: String,
    pub phase: TransformPhase,
    pub components: Vec<Component>,
    pub discoveries: Vec<String>,
    pub original_form: String,
    pub potential_forms: Vec<String>,
    pub destruction_tick: Option<u64>,
    pub rebuild_tick: Option<u64>,
}

/// The mathematical value of an artifact.
pub struct ArtifactView {
    pub name: Seq<char>,
    pub phase: TransformPhase,
    pub components: Seq<ComponentView>,
    pub discoveries: Seq<Seq<char>>,
    pub original_form: Seq<char>,
    pub potential_forms: Seq<Seq<char>>,
    pub destruction_tick: Option<u64>,
    pub rebuild_tick: Option<u64>,
}

/// The views of a vector of strings.
pub open spec fn strings_view(v: Seq<String>) -> Seq<Seq<char>> {
    v.map_values(|s: String| s@)
}

/// The views of a vector of components.
pub open spec fn components_view(v: Seq<Component>) -> Seq<ComponentView> {
    v.map_values(|c: Component| c@)
}

impl View for Artifact {
    type V = ArtifactView;

    open spec fn view(&self) -> ArtifactView {
        ArtifactView {
            name: self.name@,
            phase: self.phase,
            components: components_view(self.components@),
            discoveries: strings_view(self.discoveries@),
            original_form: self.original_form@,
            potential_forms: strings_view(self.potential_forms@),
            destruction_tick: self.destruction_tick,
            rebuild_tick: self.rebuild_tick,
        }
    }
}

/// True when the component still carries undiscovered wisdom.
pub open spec fn has_hidden_wisdom(c: ComponentView) -> bool {
    c.hidden_wisdom is Some
}

impl ArtifactView {
    /// A whole artifact with no components, discoveries or ticks yet.
    pub open spec fn fresh(
        name: Seq<char>,
        original_form: Seq<char>,
        potential_forms: Seq<Seq<char>>,
    ) -> ArtifactView {
        ArtifactView {
            name,
            phase: TransformPhase::Whole,
            components: Seq::empty(),
            discoveries: Seq::empty(),
            original_form,
            potential_forms,
            destruction_tick: None,
            rebuild_tick: None,
        }
    }

    /// The same artifact in another phase.
    pub open spec fn with_phase(self, phase: TransformPhase) -> ArtifactView {
        ArtifactView { phase, ..self }
    }

    /// Deconstruction: the artifact enters `Examining` and records the tick.
    pub open spec fn deconstructed(self, tick: u64) -> ArtifactView {
        ArtifactView {
            phase: TransformPhase::Examining,
            destruction_tick: Some(tick),
            ..self
        }
    }

    /// Examining component `idx`: if it exists and still carries wisdom, the
    /// wisdom is taken from it and appended to the discoveries, and it is
    /// returned; otherwise nothing changes and nothing is returned.
    pub open spec fn examined(self, idx: int) -> (ArtifactView, Option<Seq<char>>) {
        if 0 <= idx < self.components.len() && has_hidden_wisdom(self.components[idx]) {
            let c = self.components[idx];
            let w = c.hidden_wisdom->0;
            (
                ArtifactView {
                    components: self.components.update(
                        idx,
                        ComponentView { hidden_wisdom: None, ..c },
                    ),
                    discoveries: self.discoveries.push(w),
                    ..self
                },
                Some(w),
            )
        } else {
            (self, None)
        }
    }

    /// The rebuild gate: more than half of the components (integer division)
    /// must have yielded a discovery.
    pub open spec fn can_rebuild(self) -> bool {
        self.discoveries.len() > self.components.len() / 2
    }

    /// Rebuilding into `new_form` at `tick`. When `can_rebuild` holds, the
    /// artifact enters `Rebuilding`, takes the new form and records the
    /// tick; otherwise it stays as it is. The flag says whether it succeeded.
    pub open spec fn rebuilt(self, new_form: Seq<char>, tick: u64) -> (ArtifactView, bool) {
        if self.can_rebuild() {
            (
                ArtifactView {
                    phase: TransformPhase::Rebuilding,
                    original_form: new_form,
                    rebuild_tick: Some(tick),
                    ..self
                },
                true,
            )
        } else {
            (self, false)
        }
    }

    /// The components that still carry undiscovered wisdom.
    pub open spec fn hidden(self) -> Seq<ComponentView> {
        self.components.filter(|c: ComponentView| has_hidden_wisdom(c))
    }

    /// The number of components that still carry undiscovered wisdom.
    pub open spec fn hidden_count(self) -> nat {
        self.hidden().len()
    }
}

/// The view of an optional borrowed string.
pub open spec fn opt_str_ref_view(o: Option<&str>) -> Option<Seq<char>> {
    match o {
        Some(s) => Some(s@),
        None => None,
    }
}

impl Artifact {
    /// A whole artifact with no components yet.
    pub fn new(name: &str, original_form: &str, potential_forms: Vec<String>) -> (a: Artifact)
        ensures
            a@ == ArtifactView::fresh(name@, original_form@, strings_view(potential_forms@)),
    {
        let a = Artifact {
            name: name.to_owned(),
            phase: TransformPhase::Whole,
            components: Vec::new(),
            discoveries: Vec::new(),
            original_form: original_form.to_owned(),
            potential_forms,
            destruction_tick: None,
            rebuild_tick: None,
        };
        proof {
            assert(components_view(a.components@) =~= Seq::<ComponentView>::empty());
            assert(strings_view(a.discoveries@) =~= Seq::<Seq<char>>::empty());
        }
        a
    }

    /// Move the artifact into Examining phase and record the destruction tick.
    pub fn deconstruct(&mut self, tick: u64)
        ensures
            final(self)@ == old(self)@.deconstructed(tick),
    {
        self.phase = TransformPhase::Examining;
        self.destruction_tick = Some(tick);
    }

    /// Examine a specific component, discovering hidden wisdom if it exists.
    /// Returns `None` if the index is out of bounds or the wisdom was already
    /// discovered.
    pub fn examine_component(&mut self, idx: usize) -> (found: Option<&str>)
        ensures
            (final(self)@, opt_str_ref_view(found)) == old(self)@.examined(idx as int),
            idx < old(self).components.len() ==> opt_str_ref_view(found) == old(
                self,
            )@.components[idx as int].hidden_wisdom,
            idx >= old(self).components.len() ==> found is None,
            found matches Some(s) ==> final(self)@.discoveries == old(self)@.discoveries.push(s@),
    {
        if idx >= self.components.len() {
            return None;
        }
        let ghost before = self@;
        let taken = self.components[idx].hidden_wisdom.take();
        match taken {
            Some(w) => {
                self.discoveries.push(w);
                proof {
                    assert(components_view(self.components@) =~= before.components.update(
                        idx as int,
                        ComponentView { hidden_wisdom: None, ..before.components[idx as int] },
                    ));
                    assert(strings_view(self.discoveries@) =~= before.discoveries.push(
                        before.components[idx as int].hidden_wisdom->0,
                    ));
                }
                let last = self.discoveries.len() - 1;
                Some(self.discoveries[last].as_str())
            },
            None => {
                proof {
                    assert(components_view(self.components@) =~= before.components);
                }
                None
            },
        }
    }

    /// Move the artifact into Scattered phase.
    pub fn scatter(&mut self)
        ensures
            final(self)@ == old(self)@.with_phase(TransformPhase::Scattered),
    {
        self.phase = TransformPhase::Scattered;
    }

    /// Move the artifact into Understanding phase.
    pub fn understand(&mut self)
        ensures
            final(self)@ == old(self)@.with_phase(TransformPhase::Understanding),
    {
        self.phase = TransformPhase::Understanding;
    }

    /// Attempt to rebuild the artifact into a new form. Succeeds exactly when
    /// more discoveries were made than half the number of components
    /// (integer division); on failure nothing changes.
    pub fn rebuild(&mut self, new_form: &str, tick: u64) -> (success: bool)
        ensures
            (final(self)@, success) == old(self)@.rebuilt(new_form@, tick),
            success == (old(self)@.discoveries.len() > old(self)@.components.len() / 2),
    {
        if self.discoveries.len() > self.components.len() / 2 {
            self.phase = TransformPhase::Rebuilding;
            self.original_form = new_form.to_owned();
            self.rebuild_tick = Some(tick);
            true
        } else {
            false
        }
    }

    /// Complete the transformation into Transformed phase.
    pub fn complete(&mut self)
        ensures
            final(self)@ == old(self)@.with_phase(TransformPhase::Transformed),
    {
        self.phase = TransformPhase::Transformed;
    }

    /// True if the artifact is in a transforming phase (not Whole or Transformed).
    pub fn is_transforming(&self) -> (b: bool)
        ensures
            b == self.phase.spec_is_transforming(),
            b == (self.phase == TransformPhase::Examining || self.phase
                == TransformPhase::Scattered || self.phase == TransformPhase::Understanding
                || self.phase == TransformPhase::Rebuilding),
    {
        match self.phase {
            TransformPhase::Examining | TransformPhase::Scattered
            | TransformPhase::Understanding | TransformPhase::Rebuilding => true,
            _ => false,
        }
    }

    /// Number of discoveries made so far.
    pub fn discovery_count(&self) -> (n: usize)
        ensures
            n == self@.discoveries.len(),
    {
        self.discoveries.len()
    }

    /// Number of components that still have undiscovered hidden wisdom.
    pub fn hidden_count(&self) -> (n: usize)
        ensures
            n == self@.hidden_count(),
    {
        let ghost comps = self@.components;
        let mut n: usize = 0;
        let mut i: usize = 0;
        while i < self.components.len()
            invariant
                i <= self.components.len(),
                comps == components_view(self.components@),
                n == comps.take(i as int).filter(|c: ComponentView| has_hidden_wisdom(c)).len(),
                n <= i,
            decreases self.components.len() - i,
        {
            proof {
                assert(comps.take(i as int + 1).drop_last() =~= comps.take(i as int));
                reveal_with_fuel(Seq::<_>::filter, 1);
            }
            if self.components[i].hidden_wisdom.is_some() {
                n = n + 1;
            }
            i = i + 1;
        }
        proof {
            assert(comps.take(i as int) =~= comps);
        }
        n
    }
}

} // verus!
