use vstd::prelude::*;

use crate::artifact::{components_view, strings_view, Artifact, ArtifactView};
use crate::component::{Component, ComponentView};
use crate::event::{EventView, TransformEvent};
use crate::phase::TransformPhase;

verus! {

/// Tracks artifacts, the events of their lifecycle and a tick counter.
///
/// Artifacts are kept in creation order and looked up by name; creating an
/// artifact under a name already present replaces it in place, so names stay
/// unique (see `LogView::wf`).
#[derive(Debug, Clone)]
pub struct TransformLog {
    pub artifacts: Vec<Artifact>,
    pub events: Vec<TransformEvent>,
    pub tick: u64,
}

/// The mathematical value of a log.
pub struct LogView {
    pub artifacts: Seq<ArtifactView>,
    pub events: Seq<EventView>,
    pub tick: u64,
}

/// The views of a vector of artifacts.
pub open spec fn artifacts_view(v: Seq<Artifact>) -> Seq<ArtifactView> {
    v.map_values(|a: Artifact| a@)
}

/// The views of a vector of events.
pub open spec fn events_view(v: Seq<TransformEvent>) -> Seq<EventView> {
    v.map_values(|e: TransformEvent| e@)
}

impl View for TransformLog {
    type V = LogView;

    open spec fn view(&self) -> LogView {
        LogView {
            artifacts: artifacts_view(self.artifacts@),
            events: events_view(self.events@),
            tick: self.tick,
        }
    }
}

/// `i` is the first position of an artifact called `name`.
pub open spec fn first_named(arts: Seq<ArtifactView>, name: Seq<char>, i: int) -> bool {
    &&& 0 <= i < arts.len()
    &&& arts[i].name == name
    &&& forall|j: int| 0 <= j < i ==> arts[j].name != name
}

/// The position of the artifact called `name`, if there is one.
pub open spec fn index_of(arts: Seq<ArtifactView>, name: Seq<char>) -> Option<int> {
    if exists|i: int| first_named(arts, name, i) {
        Some(choose|i: int| first_named(arts, name, i))
    } else {
        None
    }
}

/// The artifact called `name`, if there is one.
pub open spec fn lookup(arts: Seq<ArtifactView>, name: Seq<char>) -> Option<ArtifactView> {
    match index_of(arts, name) {
        Some(i) => Some(arts[i]),
        None => None,
    }
}

/// The first position of a name is unique.
pub proof fn lemma_first_named_unique(arts: Seq<ArtifactView>, name: Seq<char>, i: int)
    requires
        first_named(arts, name, i),
    ensures
        index_of(arts, name) == Some(i),
{
    let k = choose|k: int| first_named(arts, name, k);
    assert(first_named(arts, name, k));
    if k < i {
        assert(arts[k].name != name);
    } else if k > i {
        assert(arts[i].name != name);
    }
}

/// No two artifacts share a name.
pub open spec fn names_unique(arts: Seq<ArtifactView>) -> bool {
    forall|i: int, j: int|
        0 <= i < arts.len() && 0 <= j < arts.len() && i != j ==> arts[i].name != arts[j].name
}

/// The artifact a log creates from a name, its components and its potential forms.
pub open spec fn created_artifact(
    name: Seq<char>,
    components: Seq<ComponentView>,
    potential_forms: Seq<Seq<char>>,
) -> ArtifactView {
    ArtifactView { components, ..ArtifactView::fresh(name, name, potential_forms) }
}

/// The sum of `f` over a sequence of artifacts.
pub open spec fn sum_of(arts: Seq<ArtifactView>, f: spec_fn(ArtifactView) -> nat) -> nat
    decreases arts.len(),
{
    if arts.len() == 0 {
        0
    } else {
        sum_of(arts.drop_last(), f) + f(arts.last())
    }
}

/// Total number of discoveries across a sequence of artifacts.
pub open spec fn total_discoveries(arts: Seq<ArtifactView>) -> nat {
    sum_of(arts, |a: ArtifactView| a.discoveries.len())
}

/// Total number of undiscovered wisdom entries across a sequence of artifacts.
pub open spec fn hidden_remaining(arts: Seq<ArtifactView>) -> nat {
    sum_of(arts, |a: ArtifactView| a.hidden_count())
}

/// A sum over a prefix is at most the sum over the whole sequence.
pub proof fn lemma_sum_of_prefix(arts: Seq<ArtifactView>, f: spec_fn(ArtifactView) -> nat, i: int)
    requires
        0 <= i <= arts.len(),
    ensures
        sum_of(arts.take(i), f) <= sum_of(arts, f),
    decreases arts.len(),
{
    if i < arts.len() {
        assert(arts.drop_last().take(i) =~= arts.take(i));
        lemma_sum_of_prefix(arts.drop_last(), f, i);
    } else {
        assert(arts.take(i) =~= arts);
    }
}

/// True when the artifact is in a transforming phase.
pub open spec fn is_transforming_view(a: ArtifactView) -> bool {
    a.phase.spec_is_transforming()
}

/// True when the artifact is transformed.
pub open spec fn is_completed_view(a: ArtifactView) -> bool {
    a.phase == TransformPhase::Transformed
}

impl LogView {
    /// An empty log at tick zero.
    pub open spec fn empty() -> LogView {
        LogView { artifacts: Seq::empty(), events: Seq::empty(), tick: 0 }
    }

    /// Names are unique: the log behaves as a map from names to artifacts.
    pub open spec fn wf(self) -> bool {
        names_unique(self.artifacts)
    }

    /// The artifact called `name`, if there is one.
    pub open spec fn get(self, name: Seq<char>) -> Option<ArtifactView> {
        lookup(self.artifacts, name)
    }

    /// The same log with the artifact at position `i` replaced.
    pub open spec fn with_artifact_at(self, i: int, a: ArtifactView) -> LogView {
        LogView { artifacts: self.artifacts.update(i, a), ..self }
    }

    /// Creating an artifact: it replaces the artifact of that name, or is
    /// appended when there is none.
    pub open spec fn created(
        self,
        name: Seq<char>,
        components: Seq<ComponentView>,
        potential_forms: Seq<Seq<char>>,
    ) -> LogView {
        let a = created_artifact(name, components, potential_forms);
        match index_of(self.artifacts, name) {
            Some(i) => self.with_artifact_at(i, a),
            None => LogView { artifacts: self.artifacts.push(a), ..self },
        }
    }

    /// Deconstructing: the tick advances; the artifact, if present, is
    /// deconstructed at the new tick and the start is recorded.
    pub open spec fn deconstructed(self, name: Seq<char>) -> LogView {
        let t = (self.tick + 1) as u64;
        match index_of(self.artifacts, name) {
            Some(i) => LogView {
                artifacts: self.artifacts.update(i, self.artifacts[i].deconstructed(t)),
                events: self.events.push(EventView::DeconstructionStarted(name)),
                tick: t,
            },
            None => LogView { tick: t, ..self },
        }
    }

    /// Examining component `idx` of the artifact called `name`. When either
    /// is missing nothing changes; otherwise the examination is recorded,
    /// followed by the wisdom found, if any.
    pub open spec fn examined(self, name: Seq<char>, idx: int) -> (LogView, Option<Seq<char>>) {
        match index_of(self.artifacts, name) {
            Some(i) => {
                let a = self.artifacts[i];
                if 0 <= idx < a.components.len() {
                    let (a2, found) = a.examined(idx);
                    let examined_event = EventView::ComponentExamined {
                        artifact: name,
                        component: a.components[idx].name,
                        discovery: found,
                    };
                    let events = match found {
                        Some(w) => self.events.push(examined_event).push(
                            EventView::WisdomFound { artifact: name, wisdom: w },
                        ),
                        None => self.events.push(examined_event),
                    };
                    (LogView { artifacts: self.artifacts.update(i, a2), events, ..self }, found)
                } else {
                    (self, None)
                }
            },
            None => (self, None),
        }
    }

    /// Moving the artifact called `name`, if present, to `phase`.
    pub open spec fn moved(self, name: Seq<char>, phase: TransformPhase) -> LogView {
        match index_of(self.artifacts, name) {
            Some(i) => self.with_artifact_at(i, self.artifacts[i].with_phase(phase)),
            None => self,
        }
    }

    /// A rebuild attempt: the tick advances and the attempt is recorded;
    /// on success the artifact is rebuilt at the new tick and the completed
    /// transformation is recorded with the form the artifact had before.
    pub open spec fn rebuilt(self, name: Seq<char>, new_form: Seq<char>) -> (LogView, bool) {
        let t = (self.tick + 1) as u64;
        match index_of(self.artifacts, name) {
            Some(i) => {
                let a = self.artifacts[i];
                let (a2, ok) = a.rebuilt(new_form, t);
                let attempt = EventView::RebuildAttempted { artifact: name, success: ok };
                let events = if ok {
                    self.events.push(attempt).push(
                        EventView::TransformationComplete {
                            artifact: name,
                            old_form: a.original_form,
                            new_form,
                        },
                    )
                } else {
                    self.events.push(attempt)
                };
                (LogView { artifacts: self.artifacts.update(i, a2), events, tick: t }, ok)
            },
            None => (
                LogView {
                    events: self.events.push(
                        EventView::RebuildAttempted { artifact: name, success: false },
                    ),
                    tick: t,
                    ..self
                },
                false,
            ),
        }
    }

    /// The artifacts in a transforming phase, in log order.
    pub open spec fn transforming(self) -> Seq<ArtifactView> {
        self.artifacts.filter(|a: ArtifactView| is_transforming_view(a))
    }

    /// The transformed artifacts, in log order.
    pub open spec fn completed(self) -> Seq<ArtifactView> {
        self.artifacts.filter(|a: ArtifactView| is_completed_view(a))
    }

    /// The events that concern the artifact called `name`, in log order.
    pub open spec fn events_for(self, name: Seq<char>) -> Seq<EventView> {
        self.events.filter(|e: EventView| e.concerns(name))
    }
}

/// An operation on a log, as the log's methods perform it.
pub enum LogOp {
    Create { name: Seq<char>, components: Seq<ComponentView>, potential_forms: Seq<Seq<char>> },
    Deconstruct { name: Seq<char> },
    Examine { name: Seq<char>, idx: int },
    Scatter { name: Seq<char> },
    Understand { name: Seq<char> },
    Rebuild { name: Seq<char>, new_form: Seq<char> },
    Complete { name: Seq<char> },
}

impl LogView {
    /// The log after performing `op`.
    pub open spec fn step(self, op: LogOp) -> LogView {
        match op {
            LogOp::Create { name, components, potential_forms } =>
                self.created(name, components, potential_forms),
            LogOp::Deconstruct { name } => self.deconstructed(name),
            LogOp::Examine { name, idx } => self.examined(name, idx).0,
            LogOp::Scatter { name } => self.moved(name, TransformPhase::Scattered),
            LogOp::Understand { name } => self.moved(name, TransformPhase::Understanding),
            LogOp::Rebuild { name, new_form } => self.rebuilt(name, new_form).0,
            LogOp::Complete { name } => self.moved(name, TransformPhase::Transformed),
        }
    }
}

impl TransformLog {
    /// An empty log at tick zero.
    pub fn new() -> (log: TransformLog)
        ensures
            log@ == LogView::empty(),
    {
        let log = TransformLog { artifacts: Vec::new(), events: Vec::new(), tick: 0 };
        proof {
            assert(artifacts_view(log.artifacts@) =~= Seq::<ArtifactView>::empty());
            assert(events_view(log.events@) =~= Seq::<EventView>::empty());
        }
        log
    }

    /// The position of the artifact called `name`.
    fn find_index(&self, name: &str) -> (r: Option<usize>)
        ensures
            match r {
                Some(i) => index_of(self@.artifacts, name@) == Some(i as int),
                None => index_of(self@.artifacts, name@) is None,
            },
    {
        let key = name.to_owned();
        let ghost arts = self@.artifacts;
        let mut i: usize = 0;
        while i < self.artifacts.len()
            invariant
                i <= self.artifacts.len(),
                arts == artifacts_view(self.artifacts@),
                key@ == name@,
                forall|j: int| 0 <= j < i ==> arts[j].name != name@,
            decreases self.artifacts.len() - i,
        {
            if self.artifacts[i].name == key {
                proof {
                    lemma_first_named_unique(arts, name@, i as int);
                }
                return Some(i);
            }
            i = i + 1;
        }
        None
    }

    /// Get a reference to an artifact by name.
    pub fn get(&self, name: &str) -> (r: Option<&Artifact>)
        ensures
            match r {
                Some(a) => self@.get(name@) == Some(a@),
                None => self@.get(name@) is None,
            },
    {
        match self.find_index(name) {
            Some(i) => Some(&self.artifacts[i]),
            None => None,
        }
    }

    /// Create a new artifact in the Whole phase, replacing any artifact of
    /// the same name.
    pub fn create(&mut self, name: &str, components: Vec<Component>, potential_forms: Vec<String>)
        ensures
            final(self)@ == old(self)@.created(
                name@,
                components_view(components@),
                strings_view(potential_forms@),
            ),
    {
        let mut artifact = Artifact::new(name, name, potential_forms);
        artifact.components = components;
        match self.find_index(name) {
            Some(i) => {
                self.artifacts.set(i, artifact);
                proof {
                    assert(artifacts_view(self.artifacts@) =~= old(self)@.artifacts.update(
                        i as int,
                        artifact@,
                    ));
                }
            },
            None => {
                self.artifacts.push(artifact);
                proof {
                    assert(artifacts_view(self.artifacts@) =~= old(self)@.artifacts.push(
                        artifact@,
                    ));
                }
            },
        }
    }

    /// Begin deconstruction of an artifact. The tick advances whether or not
    /// the artifact exists.
    pub fn deconstruct(&mut self, name: &str)
        requires
            old(self).tick < u64::MAX,
        ensures
            final(self)@ == old(self)@.deconstructed(name@),
    {
        self.tick = self.tick + 1;
        match self.find_index(name) {
            Some(i) => {
                let t = self.tick;
                self.artifacts[i].deconstruct(t);
                self.events.push(TransformEvent::DeconstructionStarted(name.to_owned()));
                proof {
                    assert(artifacts_view(self.artifacts@) =~= old(self)@.artifacts.update(
                        i as int,
                        old(self)@.artifacts[i as int].deconstructed(t),
                    ));
                    assert(events_view(self.events@) =~= old(self)@.events.push(
                        EventView::DeconstructionStarted(name@),
                    ));
                }
            },
            None => {},
        }
    }

    /// Examine a component of an artifact, discovering hidden wisdom if
    /// present. Nothing happens when the artifact or the component is missing.
    pub fn examine(&mut self, artifact: &str, component_idx: usize) -> (found: Option<String>)
        ensures
            (final(self)@, crate::component::opt_str_view(found)) == old(self)@.examined(
                artifact@,
                component_idx as int,
            ),
            match old(self)@.get(artifact@) {
                Some(a) => component_idx < a.components.len() ==> crate::component::opt_str_view(
                    found,
                ) == a.components[component_idx as int].hidden_wisdom,
                None => found is None,
            },
    {
        let i = match self.find_index(artifact) {
            Some(i) => i,
            None => return None,
        };
        if component_idx >= self.artifacts[i].components.len() {
            return None;
        }
        let ghost a = old(self)@.artifacts[i as int];
        let component_name = self.artifacts[i].components[component_idx].name.clone();
        let discovery: Option<String> = match self.artifacts[i].examine_component(component_idx) {
            Some(s) => Some(s.to_owned()),
            None => None,
        };
        let ghost examined_event = EventView::ComponentExamined {
            artifact: artifact@,
            component: a.components[component_idx as int].name,
            discovery: crate::component::opt_str_view(discovery),
        };
        let recorded = match &discovery {
            Some(w) => Some(w.clone()),
            None => None,
        };
        self.events.push(
            TransformEvent::ComponentExamined {
                artifact: artifact.to_owned(),
                component: component_name,
                discovery: recorded,
            },
        );
        proof {
            assert(artifacts_view(self.artifacts@) =~= old(self)@.artifacts.update(
                i as int,
                a.examined(component_idx as int).0,
            ));
            assert(events_view(self.events@) =~= old(self)@.events.push(examined_event));
        }
        match &discovery {
            Some(w) => {
                self.events.push(
                    TransformEvent::WisdomFound { artifact: artifact.to_owned(), wisdom: w.clone() },
                );
                proof {
                    assert(events_view(self.events@) =~= old(self)@.events.push(
                        examined_event,
                    ).push(EventView::WisdomFound { artifact: artifact@, wisdom: w@ }));
                }
            },
            None => {},
        }
        discovery
    }

    /// Move an artifact to the Scattered phase.
    pub fn scatter(&mut self, name: &str)
        ensures
            final(self)@ == old(self)@.moved(name@, TransformPhase::Scattered),
    {
        match self.find_index(name) {
            Some(i) => {
                self.artifacts[i].scatter();
                proof {
                    assert(artifacts_view(self.artifacts@) =~= old(self)@.artifacts.update(
                        i as int,
                        old(self)@.artifacts[i as int].with_phase(TransformPhase::Scattered),
                    ));
                }
            },
            None => {},
        }
    }

    /// Move an artifact to the Understanding phase.
    pub fn understand(&mut self, name: &str)
        ensures
            final(self)@ == old(self)@.moved(name@, TransformPhase::Understanding),
    {
        match self.find_index(name) {
            Some(i) => {
                self.artifacts[i].understand();
                proof {
                    assert(artifacts_view(self.artifacts@) =~= old(self)@.artifacts.update(
                        i as int,
                        old(self)@.artifacts[i as int].with_phase(TransformPhase::Understanding),
                    ));
                }
            },
            None => {},
        }
    }

    /// Complete the transformation of an artifact.
    pub fn complete(&mut self, name: &str)
        ensures
            final(self)@ == old(self)@.moved(name@, TransformPhase::Transformed),
    {
        match self.find_index(name) {
            Some(i) => {
                self.artifacts[i].complete();
                proof {
                    assert(artifacts_view(self.artifacts@) =~= old(self)@.artifacts.update(
                        i as int,
                        old(self)@.artifacts[i as int].with_phase(TransformPhase::Transformed),
                    ));
                }
            },
            None => {},
        }
    }

    /// Attempt to rebuild an artifact into a new form. Returns true on
    /// success. The tick advances and the attempt is recorded whether or not
    /// the artifact exists.
    pub fn rebuild(&mut self, name: &str, new_form: &str) -> (success: bool)
        requires
            old(self).tick < u64::MAX,
        ensures
            (final(self)@, success) == old(self)@.rebuilt(name@, new_form@),
            success == (old(self)@.get(name@) matches Some(a) && a.discoveries.len()
                > a.components.len() / 2),
            final(self)@.events[old(self)@.events.len() as int] == (EventView::RebuildAttempted {
                artifact: name@,
                success,
            }),
    {
        self.tick = self.tick + 1;
        let t = self.tick;
        match self.find_index(name) {
            Some(i) => {
                let old_form = self.artifacts[i].original_form.clone();
                let success = self.artifacts[i].rebuild(new_form, t);
                self.events.push(
                    TransformEvent::RebuildAttempted { artifact: name.to_owned(), success },
                );
                let ghost attempt = EventView::RebuildAttempted { artifact: name@, success };
                proof {
                    assert(artifacts_view(self.artifacts@) =~= old(self)@.artifacts.update(
                        i as int,
                        old(self)@.artifacts[i as int].rebuilt(new_form@, t).0,
                    ));
                    assert(events_view(self.events@) =~= old(self)@.events.push(attempt));
                }
                if success {
                    self.events.push(
                        TransformEvent::TransformationComplete {
                            artifact: name.to_owned(),
                            old_form,
                            new_form: new_form.to_owned(),
                        },
                    );
                    proof {
                        assert(events_view(self.events@) =~= old(self)@.events.push(attempt).push(
                            EventView::TransformationComplete {
                                artifact: name@,
                                old_form: old(self)@.artifacts[i as int].original_form,
                                new_form: new_form@,
                            },
                        ));
                    }
                }
                success
            },
            None => {
                self.events.push(
                    TransformEvent::RebuildAttempted { artifact: name.to_owned(), success: false },
                );
                proof {
                    assert(events_view(self.events@) =~= old(self)@.events.push(
                        EventView::RebuildAttempted { artifact: name@, success: false },
                    ));
                }
                false
            },
        }
    }

    /// Get all artifacts currently in a transforming phase.
    pub fn transforming(&self) -> (r: Vec<&Artifact>)
        ensures
            r@.map_values(|a: &Artifact| a@) == self@.transforming(),
            forall|i: int|
                0 <= i < r.len() ==> (r[i].phase == TransformPhase::Examining || r[i].phase
                    == TransformPhase::Scattered || r[i].phase == TransformPhase::Understanding
                    || r[i].phase == TransformPhase::Rebuilding),
    {
        let ghost arts = self@.artifacts;
        let mut r: Vec<&Artifact> = Vec::new();
        let mut i: usize = 0;
        while i < self.artifacts.len()
            invariant
                i <= self.artifacts.len(),
                arts == artifacts_view(self.artifacts@),
                r@.map_values(|a: &Artifact| a@) == arts.take(i as int).filter(
                    |a: ArtifactView| is_transforming_view(a),
                ),
                forall|k: int|
                    0 <= k < r.len() ==> (r[k].phase == TransformPhase::Examining || r[k].phase
                        == TransformPhase::Scattered || r[k].phase == TransformPhase::Understanding
                        || r[k].phase == TransformPhase::Rebuilding),
            decreases self.artifacts.len() - i,
        {
            proof {
                assert(arts.take(i as int + 1).drop_last() =~= arts.take(i as int));
                reveal_with_fuel(Seq::<_>::filter, 1);
            }
            let a = &self.artifacts[i];
            let ghost before = r@;
            if a.is_transforming() {
                r.push(a);
                proof {
                    assert(r@.map_values(|a: &Artifact| a@) =~= before.map_values(
                        |a: &Artifact| a@,
                    ).push(arts[i as int]));
                }
            }
            i = i + 1;
        }
        proof {
            assert(arts.take(i as int) =~= arts);
        }
        r
    }

    /// Get all completed (Transformed) artifacts.
    pub fn completed(&self) -> (r: Vec<&Artifact>)
        ensures
            r@.map_values(|a: &Artifact| a@) == self@.completed(),
            forall|i: int| 0 <= i < r.len() ==> r[i].phase == TransformPhase::Transformed,
    {
        let ghost arts = self@.artifacts;
        let mut r: Vec<&Artifact> = Vec::new();
        let mut i: usize = 0;
        while i < self.artifacts.len()
            invariant
                i <= self.artifacts.len(),
                arts == artifacts_view(self.artifacts@),
                r@.map_values(|a: &Artifact| a@) == arts.take(i as int).filter(
                    |a: ArtifactView| is_completed_view(a),
                ),
                forall|k: int| 0 <= k < r.len() ==> r[k].phase == TransformPhase::Transformed,
            decreases self.artifacts.len() - i,
        {
            proof {
                assert(arts.take(i as int + 1).drop_last() =~= arts.take(i as int));
                reveal_with_fuel(Seq::<_>::filter, 1);
            }
            let a = &self.artifacts[i];
            let ghost before = r@;
            if a.phase == TransformPhase::Transformed {
                r.push(a);
                proof {
                    assert(r@.map_values(|a: &Artifact| a@) =~= before.map_values(
                        |a: &Artifact| a@,
                    ).push(arts[i as int]));
                }
            }
            i = i + 1;
        }
        proof {
            assert(arts.take(i as int) =~= arts);
        }
        r
    }

    /// Get all events related to a specific artifact name.
    pub fn events_for(&self, name: &str) -> (r: Vec<&TransformEvent>)
        ensures
            r@.map_values(|e: &TransformEvent| e@) == self@.events_for(name@),
    {
        let key = name.to_owned();
        let ghost evs = self@.events;
        let mut r: Vec<&TransformEvent> = Vec::new();
        let mut i: usize = 0;
        while i < self.events.len()
            invariant
                i <= self.events.len(),
                evs == events_view(self.events@),
                key@ == name@,
                r@.map_values(|e: &TransformEvent| e@) == evs.take(i as int).filter(
                    |e: EventView| e.concerns(name@),
                ),
            decreases self.events.len() - i,
        {
            proof {
                assert(evs.take(i as int + 1).drop_last() =~= evs.take(i as int));
                reveal_with_fuel(Seq::<_>::filter, 1);
            }
            let e = &self.events[i];
            let ghost before = r@;
            if e.concerns(&key) {
                r.push(e);
                proof {
                    assert(r@.map_values(|e: &TransformEvent| e@) =~= before.map_values(
                        |e: &TransformEvent| e@,
                    ).push(evs[i as int]));
                }
            }
            i = i + 1;
        }
        proof {
            assert(evs.take(i as int) =~= evs);
        }
        r
    }

    /// Total number of discoveries across all artifacts.
    pub fn total_discoveries(&self) -> (n: usize)
        requires
            total_discoveries(self@.artifacts) <= usize::MAX,
        ensures
            n == total_discoveries(self@.artifacts),
    {
        let ghost arts = self@.artifacts;
        let ghost f = |a: ArtifactView| a.discoveries.len();
        let mut n: usize = 0;
        let mut i: usize = 0;
        while i < self.artifacts.len()
            invariant
                i <= self.artifacts.len(),
                arts == artifacts_view(self.artifacts@),
                f == (|a: ArtifactView| a.discoveries.len()),
                sum_of(arts, f) <= usize::MAX,
                n == sum_of(arts.take(i as int), f),
            decreases self.artifacts.len() - i,
        {
            proof {
                assert(arts.take(i as int + 1).drop_last() =~= arts.take(i as int));
                lemma_sum_of_prefix(arts, f, i as int + 1);
                assert(sum_of(arts.take(i as int + 1), f) == sum_of(arts.take(i as int), f) + f(
                    arts[i as int],
                ));
                assert(arts[i as int] == self.artifacts@[i as int]@);
            }
            n = n + self.artifacts[i].discovery_count();
            i = i + 1;
        }
        proof {
            assert(arts.take(i as int) =~= arts);
        }
        n
    }

    /// Total number of hidden wisdom entries still undiscovered across all
    /// artifacts.
    pub fn hidden_remaining(&self) -> (n: usize)
        requires
            hidden_remaining(self@.artifacts) <= usize::MAX,
        ensures
            n == hidden_remaining(self@.artifacts),
    {
        let ghost arts = self@.artifacts;
        let ghost f = |a: ArtifactView| a.hidden_count();
        let mut n: usize = 0;
        let mut i: usize = 0;
        while i < self.artifacts.len()
            invariant
                i <= self.artifacts.len(),
                arts == artifacts_view(self.artifacts@),
                f == (|a: ArtifactView| a.hidden_count()),
                sum_of(arts, f) <= usize::MAX,
                n == sum_of(arts.take(i as int), f),
            decreases self.artifacts.len() - i,
        {
            proof {
                assert(arts.take(i as int + 1).drop_last() =~= arts.take(i as int));
                lemma_sum_of_prefix(arts, f, i as int + 1);
                assert(sum_of(arts.take(i as int + 1), f) == sum_of(arts.take(i as int), f) + f(
                    arts[i as int],
                ));
                assert(arts[i as int] == self.artifacts@[i as int]@);
            }
            n = n + self.artifacts[i].hidden_count();
            i = i + 1;
        }
        proof {
            assert(arts.take(i as int) =~= arts);
        }
        n
    }

    /// The transformation rate as the pair (completed artifacts, all
    /// artifacts); the rate is their quotient, taken as 0 when there are no
    /// artifacts.
    pub fn transform_rate(&self) -> (r: (usize, usize))
        ensures
            r.0 == self@.completed().len(),
            r.1 == self@.artifacts.len(),
            r.0 <= r.1,
    {
        let done = self.completed();
        proof {
            self@.artifacts.lemma_filter_len(|a: ArtifactView| is_completed_view(a));
            assert(done@.len() == done@.map_values(|a: &Artifact| a@).len());
        }
        (done.len(), self.artifacts.len())
    }
}

impl Default for TransformLog {
    fn default() -> (log: Self)
        ensures
            log@ == LogView::empty(),
    {
        TransformLog::new()
    }
}

} // verus!
