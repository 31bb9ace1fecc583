//! Workspaces: the ordered windows of one virtual desktop, the window that
//! has taken the desktop over in fullscreen, and the set of workspaces of one
//! output.

pub mod set;
pub mod workspace;

pub use self::set::{
    lemma_focus_precedence, lemma_set_window_of_held, lemma_set_window_replaced_keeps,
    lemma_set_with_mapped_keeps, lemma_set_with_workspace_keeps, SwitchView, WorkspaceSet,
    WorkspaceSetView, WorkspaceSwitchAnimation, WORKSPACE_COUNT,
};
pub use self::workspace::{
    lemma_fullscreen_round_trip, lemma_fullscreened_keeps, lemma_in_sequence_insert,
    lemma_mapping_restores_fullscreen, lemma_restore_keeps, lemma_window_of_held,
    lemma_window_replaced_keeps, lemma_with_mapped_keeps, lemma_with_window_keeps,
    lemma_without_window_keeps, FullscreenSurface, FullscreenView, Workspace, WorkspaceView,
};
