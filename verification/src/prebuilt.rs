use vstd::prelude::*;

use crate::artifact::{components_view, strings_view, Artifact, ArtifactView};
use crate::component::{Component, ComponentView};

verus! {

// Condition ratings are written as the bit patterns of their `f64` values:
// 0x3fb999999999999a is 0.1, 0x3fc999999999999a is 0.2, 0x3fd3333333333333 is
// 0.3, 0x3fd999999999999a is 0.4, 0x3fe0000000000000 is 0.5 and
// 0x3fe3333333333333 is 0.6.

/// The value of the artifact that `old_boat` builds.
pub open spec fn old_boat_view() -> ArtifactView {
    ArtifactView {
        components: seq![
            ComponentView {
                name: "Hull"@,
                condition_bits: 0x3fd3333333333333,
                hidden_wisdom: Some("The wood remembers the sea — it curves not from decay, but from years of yielding to waves"@),
            },
            ComponentView {
                name: "Mast"@,
                condition_bits: 0x3fc999999999999a,
                hidden_wisdom: None,
            },
            ComponentView {
                name: "Rudder"@,
                condition_bits: 0x3fb999999999999a,
                hidden_wisdom: Some("A broken rudder steers truer than a new one, if you know how to read its grain"@),
            },
            ComponentView {
                name: "Sails"@,
                condition_bits: 0x3fd999999999999a,
                hidden_wisdom: None,
            },
            ComponentView {
                name: "Anchor"@,
                condition_bits: 0x3fe3333333333333,
                hidden_wisdom: Some("The anchor was never meant to hold the boat still — it was meant to teach patience"@),
            },
        ],
        ..ArtifactView::fresh(
            "Old Boat"@,
            "a weathered fishing boat"@,
            seq!["A sleek yacht"@, "A floating home"@, "A planter for the garden"@],
        )
    }
}

/// Build the "Old Boat" artifact: five components, three of them with hidden wisdom.
pub fn old_boat() -> (art: Artifact)
    ensures
        art@ == old_boat_view(),
{
    let mut forms: Vec<String> = Vec::new();
    forms.push("A sleek yacht".to_owned());
    forms.push("A floating home".to_owned());
    forms.push("A planter for the garden".to_owned());
    proof {
        assert(strings_view(forms@) =~= old_boat_view().potential_forms);
    }
    let mut art = Artifact::new("Old Boat", "a weathered fishing boat", forms);
    let mut components: Vec<Component> = Vec::new();
    components.push(
        Component::with_wisdom(
            "Hull",
            0x3fd3333333333333,
            "The wood remembers the sea — it curves not from decay, but from years of yielding to waves",
        ),
    );
    components.push(Component::new("Mast", 0x3fc999999999999a));
    components.push(
        Component::with_wisdom(
            "Rudder",
            0x3fb999999999999a,
            "A broken rudder steers truer than a new one, if you know how to read its grain",
        ),
    );
    components.push(Component::new("Sails", 0x3fd999999999999a));
    components.push(
        Component::with_wisdom(
            "Anchor",
            0x3fe3333333333333,
            "The anchor was never meant to hold the boat still — it was meant to teach patience",
        ),
    );
    art.components = components;
    proof {
        assert(components_view(art.components@) =~= old_boat_view().components);
    }
    art
}

/// The value of the artifact that `failed_bridge` builds.
pub open spec fn failed_bridge_view() -> ArtifactView {
    ArtifactView {
        components: seq![
            ComponentView {
                name: "Suspension Cables"@,
                condition_bits: 0x3fd3333333333333,
                hidden_wisdom: Some("The cables only failed because they were the wrong kind of strong — rigid instead of flexible"@),
            },
            ComponentView {
                name: "Deck"@,
                condition_bits: 0x3fb999999999999a,
                hidden_wisdom: None,
            },
            ComponentView {
                name: "Pillars"@,
                condition_bits: 0x3fe0000000000000,
                hidden_wisdom: Some("The pillars stand crooked but unbroken — they learned to lean with the earth"@),
            },
        ],
        ..ArtifactView::fresh(
            "Failed Bridge"@,
            "a collapsed suspension bridge"@,
            seq!["A shorter footbridge"@, "A scenic overlook"@, "A cable-stayed bridge"@],
        )
    }
}

/// Build the "Failed Bridge" artifact: three components, two of them with hidden wisdom.
pub fn failed_bridge() -> (art: Artifact)
    ensures
        art@ == failed_bridge_view(),
{
    let mut forms: Vec<String> = Vec::new();
    forms.push("A shorter footbridge".to_owned());
    forms.push("A scenic overlook".to_owned());
    forms.push("A cable-stayed bridge".to_owned());
    proof {
        assert(strings_view(forms@) =~= failed_bridge_view().potential_forms);
    }
    let mut art = Artifact::new("Failed Bridge", "a collapsed suspension bridge", forms);
    let mut components: Vec<Component> = Vec::new();
    components.push(
        Component::with_wisdom(
            "Suspension Cables",
            0x3fd3333333333333,
            "The cables only failed because they were the wrong kind of strong — rigid instead of flexible",
        ),
    );
    components.push(Component::new("Deck", 0x3fb999999999999a));
    components.push(
        Component::with_wisdom(
            "Pillars",
            0x3fe0000000000000,
            "The pillars stand crooked but unbroken — they learned to lean with the earth",
        ),
    );
    art.components = components;
    proof {
        assert(components_view(art.components@) =~= failed_bridge_view().components);
    }
    art
}

/// The value of the artifact that `crashed_agent` builds.
pub open spec fn crashed_agent_view() -> ArtifactView {
    ArtifactView {
        components: seq![
            ComponentView {
                name: "Memory Core"@,
                condition_bits: 0x3fc999999999999a,
                hidden_wisdom: Some("The crash wiped the cache but preserved the weights — forgetting made room for insight"@),
            },
            ComponentView {
                name: "Decision Engine"@,
                condition_bits: 0x3fd999999999999a,
                hidden_wisdom: Some("The heuristic that caused the crash was the same one that found the elegant solution"@),
            },
            ComponentView {
                name: "Communication Bus"@,
                condition_bits: 0x3fe3333333333333,
                hidden_wisdom: None,
            },
            ComponentView {
                name: "Ethical Guardrail"@,
                condition_bits: 0x3fd3333333333333,
                hidden_wisdom: Some("The guardrail bent under pressure, but taught the agent that rigidity is not the same as safety"@),
            },
        ],
        ..ArtifactView::fresh(
            "Crashed Agent"@,
            "a corrupted AI agent"@,
            seq!["A wiser assistant"@, "A creative collaborator"@, "A distributed swarm node"@],
        )
    }
}

/// Build the "Crashed Agent" artifact: four components, three of them with hidden wisdom.
pub fn crashed_agent() -> (art: Artifact)
    ensures
        art@ == crashed_agent_view(),
{
    let mut forms: Vec<String> = Vec::new();
    forms.push("A wiser assistant".to_owned());
    forms.push("A creative collaborator".to_owned());
    forms.push("A distributed swarm node".to_owned());
    proof {
        assert(strings_view(forms@) =~= crashed_agent_view().potential_forms);
    }
    let mut art = Artifact::new("Crashed Agent", "a corrupted AI agent", forms);
    let mut components: Vec<Component> = Vec::new();
    components.push(
        Component::with_wisdom(
            "Memory Core",
            0x3fc999999999999a,
            "The crash wiped the cache but preserved the weights — forgetting made room for insight",
        ),
    );
    components.push(
        Component::with_wisdom(
            "Decision Engine",
            0x3fd999999999999a,
            "The heuristic that caused the crash was the same one that found the elegant solution",
        ),
    );
    components.push(Component::new("Communication Bus", 0x3fe3333333333333));
    components.push(
        Component::with_wisdom(
            "Ethical Guardrail",
            0x3fd3333333333333,
            "The guardrail bent under pressure, but taught the agent that rigidity is not the same as safety",
        ),
    );
    art.components = components;
    proof {
        assert(components_view(art.components@) =~= crashed_agent_view().components);
    }
    art
}

} // verus!
