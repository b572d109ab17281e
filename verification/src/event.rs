use vstd::prelude::*;

use crate::component::opt_str_view;

verus! {

/// Events emitted during the lifecycle of artifacts and rooms.
#[derive(Debug, Clone)]
pub enum TransformEvent {
    DeconstructionStarted(String),
    ComponentExamined { artifact: String, component: String, discovery: Option<String> },
    WisdomFound { artifact: String, wisdom: String },
    RebuildAttempted { artifact: String, success: bool },
    TransformationComplete { artifact: String, old_form: String, new_form: String },
    RoomDissolved { room: String, reason: String },
}

/// The mathematical value of an event.
pub enum EventView {
    DeconstructionStarted(Seq<char>),
    ComponentExamined { artifact: Seq<char>, component: Seq<char>, discovery: Option<Seq<char>> },
    WisdomFound { artifact: Seq<char>, wisdom: Seq<char> },
    RebuildAttempted { artifact: Seq<char>, success: bool },
    TransformationComplete { artifact: Seq<char>, old_form: Seq<char>, new_form: Seq<char> },
    RoomDissolved { room: Seq<char>, reason: Seq<char> },
}

impl View for TransformEvent {
    type V = EventView;

    open spec fn view(&self) -> EventView {
        match self {
            TransformEvent::DeconstructionStarted(a) => EventView::DeconstructionStarted(a@),
            TransformEvent::ComponentExamined { artifact, component, discovery } =>
                EventView::ComponentExamined {
                    artifact: artifact@,
                    component: component@,
                    discovery: opt_str_view(*discovery),
                },
            TransformEvent::WisdomFound { artifact, wisdom } =>
                EventView::WisdomFound { artifact: artifact@, wisdom: wisdom@ },
            TransformEvent::RebuildAttempted { artifact, success } =>
                EventView::RebuildAttempted { artifact: artifact@, success: *success },
            TransformEvent::TransformationComplete { artifact, old_form, new_form } =>
                EventView::TransformationComplete {
                    artifact: artifact@,
                    old_form: old_form@,
                    new_form: new_form@,
                },
            TransformEvent::RoomDissolved { room, reason } =>
                EventView::RoomDissolved { room: room@, reason: reason@ },
        }
    }
}

impl EventView {
    /// True when the event concerns the artifact called `name`; a dissolved
    /// room concerns no artifact.
    pub open spec fn concerns(self, name: Seq<char>) -> bool {
        match self {
            EventView::DeconstructionStarted(a) => a == name,
            EventView::ComponentExamined { artifact, .. } => artifact == name,
            EventView::WisdomFound { artifact, .. } => artifact == name,
            EventView::RebuildAttempted { artifact, .. } => artifact == name,
            EventView::TransformationComplete { artifact, .. } => artifact == name,
            EventView::RoomDissolved { .. } => false,
        }
    }
}

impl TransformEvent {
    /// True when the event concerns the artifact called `name`.
    pub fn concerns(&self, name: &String) -> (b: bool)
        ensures
            b == self@.concerns(name@),
    {
        match self {
            TransformEvent::DeconstructionStarted(a) => *a == *name,
            TransformEvent::ComponentExamined { artifact, .. } => *artifact == *name,
            TransformEvent::WisdomFound { artifact, .. } => *artifact == *name,
            TransformEvent::RebuildAttempted { artifact, .. } => *artifact == *name,
            TransformEvent::TransformationComplete { artifact, .. } => *artifact == *name,
            TransformEvent::RoomDissolved { .. } => false,
        }
    }
}

} // verus!
