//! Editing core of a small GPU text editor: text buffers with cursor and
//! selection, key handling decisions, colour schemes, scene bookkeeping and
//! sprite animation.

pub mod app;
pub mod buffer;
pub mod buffer_laws;
pub mod buffer_system;
pub mod colorscheme;
pub mod cursor;
pub mod event;
pub mod file_searcher;
pub mod highlight;
pub mod layout;
pub mod ml;
pub mod renderer;
pub mod scene;
pub mod shader_types;
pub mod shortcuts;
pub mod sprite;
pub mod sprite_animator;
pub mod system;
pub mod ui_event_system;
pub mod utf8_lines;
pub mod word_boundaries;
