//! A hierarchical task list: a flat set of task records is turned into an
//! outline that honours per-task expansion, can be searched with match
//! navigation, and guards reparenting against cycles.
//!
//! The records come from a store that the host holds. [`tree`] builds the
//! forest and renders its rows, [`search`] and [`tree_search`] find tasks
//! and step through the matches, [`reparent`] judges moves, and
//! [`session`] with [`keys`] is the state of the interface between two key
//! presses together with what each key does. What holds of every outline is
//! proved in [`forest_laws`], [`row_laws`], [`distinct_rows`] and
//! [`path_laws`].

mod clock;
pub mod colors;
pub mod cursor;
pub mod distinct_rows;
pub mod due;
pub mod editor;
pub mod forest;
pub mod forest_laws;
pub mod form;
pub mod goto;
pub mod help;
pub mod hierarchy;
pub mod keys;
pub mod matches;
pub mod modes;
pub mod move_mode;
pub mod order;
pub mod outline;
pub mod path_laws;
pub mod reparent;
pub mod row_laws;
pub mod search;
pub mod session;
pub mod text;
pub mod todo;
pub mod tree;
pub mod tree_search;
