//! Widgets for Basecoat: a toaster, drawers and dialogs, driven by htmx
//! partial responses.
pub mod dialog;
pub mod drawer;
pub mod head;
pub mod modal;
pub use dialog::Dialog;
pub use drawer::{Drawer, Side};
pub use modal::{HxEvent, Modal, Slots};
pub mod toast;
pub use toast::{Action, Align, Category, Duration, Toast, Toaster};
