//! The bookkeeping of the Wayland compositor and of its X11 window manager.

pub mod atom_set;
pub mod buffers;
pub mod dispatch;
pub mod modifiers;
pub mod output;
pub mod properties;
pub mod shell;
pub mod slots;
pub mod state;
pub mod surface;
pub mod window_list;
pub mod xwayland;
pub mod xwm;
