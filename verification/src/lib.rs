//! Verified core of a panel applet that runs user-configured commands from
//! a nested menu.

pub mod applet;
pub mod command;
pub mod layout;
pub mod menu;
pub mod path;
pub mod text;
