//! The decisions of a desktop kanban board: where its files live, how a board
//! snapshot is stored and old ones are retired, and how the window's place on
//! screen is remembered in its two modes.
pub mod action_laws;
pub mod board;
pub mod disk;
pub mod external;
pub mod files;
pub mod geometry;
pub mod geometry_laws;
pub mod history;
pub mod history_laws;
pub mod keep;
pub mod list_laws;
pub mod load;
pub mod location;
pub mod place_laws;
pub mod save;
pub mod save_laws;
pub mod storage_laws;
pub mod text;
pub mod window;
pub mod window_laws;
pub mod write_laws;
