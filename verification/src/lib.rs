//! Decision logic of a keyboard, mouse and clipboard sharing runtime.
//!
//! Everything here works on plain values: the host performs the system calls
//! and hands the results in.

pub mod capture;
pub mod clipboard;
pub mod clipboard_image;
pub mod clipboard_target;
pub mod control;
pub mod encoding;
pub mod hotkeys;
pub mod injected_keys;
pub mod key_sequence;
pub mod keymap;
pub mod layout;
pub mod macos_capture;
pub mod macos_cursor;
pub mod macos_inject;
pub mod macos_loop;
pub mod modifiers;
pub mod origin_map;
pub mod packets;
pub mod placement;
pub mod receiver;
pub mod remote_mouse;
pub mod runtime;
pub mod session;
pub mod session_laws;
pub mod shared_input;
pub mod status;
pub mod switch;
pub mod targets;
pub mod text;
pub mod windows_hooks;
pub mod windows_inject;
pub mod windows_pump;
pub mod windows_worker;
