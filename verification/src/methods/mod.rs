//! The task methods.
pub mod change;
pub mod dispatch;
pub mod kind;
pub mod listing;
pub mod patch;
pub mod view;

pub use dispatch::try_dispatch;
pub use kind::{add_kind_prefix, strip_kind_prefix, TASK_KIND};
pub use patch::apply_patch;
pub use view::{normalize_status, subject_view};
