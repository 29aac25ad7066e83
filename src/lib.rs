//! Selection of a graphics device and its queue families, and verification
//! that the requested instance layers are available.
//!
//! Everything here works on plain values that the caller obtained from the
//! graphics runtime: layer names, raw queue-family flag masks, per-family
//! presentation answers and raw device handles.

pub mod device;
pub mod layers;
pub mod queue_family;

pub use device::{pick_device, DeviceCandidate, DeviceSelectionError, SuitabilityPolicy};
pub use layers::has_required_capabilities;
pub use queue_family::{select_queue_families, QueueFamilyDescriptor, QueueFamilyIndices};
