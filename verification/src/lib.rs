//! Destruction-transform pipelines: artifacts are deconstructed into
//! components, examined for hidden wisdom, and rebuilt into new forms.

pub mod artifact;
pub mod component;
pub mod event;
pub mod laws;
pub mod log;
pub mod phase;
pub mod prebuilt;

pub use artifact::{Artifact, ArtifactView};
pub use component::{Component, ComponentView};
pub use event::{EventView, TransformEvent};
pub use log::{LogView, TransformLog};
pub use phase::{TransformId, TransformPhase};
pub use prebuilt::{crashed_agent, failed_bridge, old_boat};
