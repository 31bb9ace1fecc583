//! Window-management and animation core of a Wayland compositor.
//!
//! The crate decides which surface is focused, where each window sits within
//! its workspace and output, how fullscreen windows leave and re-enter the
//! tiled arrangement, where popups may be placed, and how far a time-driven
//! animation has progressed. Every decision is a function of plain values with
//! a contract that Verus proves; the protocol objects themselves stay with the
//! caller, who knows windows, surfaces, clients and outputs by the numbers it
//! gave them.
//!
//! Each type has a view, its mathematical content, and the contracts speak of
//! views. The shell state [`state::Fht`] is well formed when no window is
//! held twice, every index is in range and everything pending waits for an
//! output that exists. A new state is well formed, and every operation keeps
//! it so: a state that is only ever changed through this crate's functions
//! is well formed wherever one of them requires it.
//!
//! - [`geometry`], [`time`]: points, rectangles, clock readings and spans.
//! - [`animation`]: the exact time keeping of an animation.
//! - [`rules`]: window rule patterns and the settings a window is mapped with.
//! - [`window`], [`output`], [`workspaces`], [`popup`], [`focus`], [`grabs`]:
//!   the things the shell arranges.
//! - [`state`]: the shell state, how it is built up and kept.
//! - [`shell`]: the decisions.
//! - [`search`]: first and last matches in a sequence, for the contracts.

pub mod animation;
pub mod focus;
pub mod geometry;
pub mod grabs;
pub mod output;
pub mod popup;
pub mod rules;
pub mod search;
pub mod shell;
pub mod state;
pub mod time;
pub mod window;
pub mod workspaces;
