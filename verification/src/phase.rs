use vstd::prelude::*;

verus! {

/// Identifier of a transform, a thin wrapper around a string.
#[derive(Debug, Clone, Hash, Eq, PartialEq)]
pub struct TransformId(pub String);

impl TransformId {
    /// The text that identifies this transform, as shown to users.
    pub fn to_string(&self) -> (s: String)
        ensures
            s@ == self.0@,
    {
        self.0.clone()
    }
}

/// The six phases an artifact passes through.
#[derive(Debug, Clone, Copy, PartialEq, Eq, Structural)]
pub enum TransformPhase {
    Whole,
    Examining,
    Scattered,
    Understanding,
    Rebuilding,
    Transformed,
}

/// The display name of a phase.
pub open spec fn phase_name(p: TransformPhase) -> Seq<char> {
    match p {
        TransformPhase::Whole => "Whole"@,
        TransformPhase::Examining => "Examining"@,
        TransformPhase::Scattered => "Scattered"@,
        TransformPhase::Understanding => "Understanding"@,
        TransformPhase::Rebuilding => "Rebuilding"@,
        TransformPhase::Transformed => "Transformed"@,
    }
}

impl TransformPhase {
    /// The display name of this phase.
    pub fn to_string(&self) -> (s: String)
        ensures
            s@ == phase_name(*self),
    {
        match self {
            TransformPhase::Whole => "Whole".to_owned(),
            TransformPhase::Examining => "Examining".to_owned(),
            TransformPhase::Scattered => "Scattered".to_owned(),
            TransformPhase::Understanding => "Understanding".to_owned(),
            TransformPhase::Rebuilding => "Rebuilding".to_owned(),
            TransformPhase::Transformed => "Transformed".to_owned(),
        }
    }

    /// True for the phases strictly between `Whole` and `Transformed`.
    pub open spec fn spec_is_transforming(self) -> bool {
        match self {
            TransformPhase::Examining | TransformPhase::Scattered
            | TransformPhase::Understanding | TransformPhase::Rebuilding => true,
            _ => false,
        }
    }
}

} // verus!
