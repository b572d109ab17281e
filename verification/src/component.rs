use vstd::prelude::*;

verus! {

/// A part of an artifact. It may carry a piece of hidden wisdom, revealed
/// the first time the component is examined.
///
/// The condition rating (0.0 to 1.0, higher is better) is kept as the bit
/// pattern of its `f64` value (`f64::to_bits`): the library carries it
/// through unchanged and never computes with it.
#[derive(Debug, Clone)]
pub struct Component {
    pub name: String,
    pub condition_bits: u64,
    pub hidden_wisdom: Option<String>,
}

/// The mathematical value of a component.
pub struct ComponentView {
    pub name: Seq<char>,
    pub condition_bits: u64,
    pub hidden_wisdom: Option<Seq<char>>,
}

/// The view of an optional string.
pub open spec fn opt_str_view(o: Option<String>) -> Option<Seq<char>> {
    match o {
        Some(s) => Some(s@),
        None => None,
    }
}

impl View for Component {
    type V = ComponentView;

    open spec fn view(&self) -> ComponentView {
        ComponentView {
            name: self.name@,
            condition_bits: self.condition_bits,
            hidden_wisdom: opt_str_view(self.hidden_wisdom),
        }
    }
}

impl Component {
    /// A component without hidden wisdom.
    pub fn new(name: &str, condition_bits: u64) -> (c: Component)
        ensures
            c@ == (ComponentView { name: name@, condition_bits, hidden_wisdom: None }),
    {
        Component { name: name.to_owned(), condition_bits, hidden_wisdom: None }
    }

    /// A component that carries a piece of hidden wisdom.
    pub fn with_wisdom(name: &str, condition_bits: u64, wisdom: &str) -> (c: Component)
        ensures
            c@ == (ComponentView {
                name: name@,
                condition_bits,
                hidden_wisdom: Some(wisdom@),
            }),
    {
        Component {
            name: name.to_owned(),
            condition_bits,
            hidden_wisdom: Some(wisdom.to_owned()),
        }
    }
}

} // verus!
