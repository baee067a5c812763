pub mod actions;
pub mod commands;
pub mod copying;
pub mod dispatching;
pub mod editing;
pub mod editor;
pub mod events;
pub mod jumps;
pub mod keymap_legend;
pub mod keys;
pub mod kids;
pub mod messages;
pub mod navigation;
pub mod structural;
