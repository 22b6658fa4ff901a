//! Per-session state of an interactive vector renderer: a registry of shapes
//! keyed by 128-bit identifiers, a paint order over those identifiers, an edit
//! cursor naming at most one shape, and the binding to the drawing surface.
pub mod error;
pub mod identifier;
pub mod laws;
pub mod order;
pub mod state;
pub mod surface;

pub use error::StateError;
pub use state::{State, StateView};
pub use surface::SurfaceBinding;
