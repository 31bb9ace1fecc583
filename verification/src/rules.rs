//! Declarative window rules: the pattern a window is matched against and the
//! placement a matching window is mapped with.

use vstd::prelude::*;
use crate::window::{FhtWindow, WindowView};

verus! {

/// The value of a setting that is on unless it is switched off.
pub fn default_true() -> (b: bool)
    ensures
        b,
{
    true
}

/// The characters of an optional string.
pub open spec fn text_of(s: Option<String>) -> Option<Seq<char>> {
    match s {
        Some(t) => Some(t@),
        None => None,
    }
}

/// The mathematical content of a [`WindowRulePattern`].
pub struct PatternView {
    pub workspace: Option<usize>,
    pub title: Option<Seq<char>>,
    pub app_id: Option<Seq<char>>,
}

impl PatternView {
    /// Whether the pattern selects `window` on the workspace with index
    /// `workspace`.
    ///
    /// Exactly one criterion decides: the workspace index where the pattern
    /// names one, else the title where it names one, else the app id where it
    /// names one. A pattern that names nothing selects nothing.
    pub open spec fn matches(self, window: WindowView, workspace: usize) -> bool {
        match self.workspace {
            Some(idx) => idx == workspace,
            None => match self.title {
                Some(title) => window.title == title,
                None => match self.app_id {
                    Some(app_id) => window.app_id == app_id,
                    None => false,
                },
            },
        }
    }
}

/// A pattern that names a workspace index is decided by that index alone,
/// whatever title and app id it names and whatever those of the window are.
pub proof fn lemma_workspace_criterion_decides(pattern: PatternView, window: WindowView, workspace: usize)
    requires
        pattern.workspace is Some,
    ensures
        pattern.matches(window, workspace) <==> pattern.workspace == Some(workspace),
{
}

/// A pattern that names no workspace index but a title is decided by the
/// title alone; one that names only an app id by the app id; and one that
/// names nothing matches nothing.
pub proof fn lemma_later_criteria(pattern: PatternView, window: WindowView, workspace: usize)
    requires
        pattern.workspace is None,
    ensures
        pattern.title matches Some(title) ==> (pattern.matches(window, workspace) <==> window.title == title),
        pattern.title is None ==> (pattern.app_id matches Some(app_id) ==> (pattern.matches(window, workspace)
            <==> window.app_id == app_id)),
        pattern.title is None && pattern.app_id is None ==> !pattern.matches(window, workspace),
{
}

/// A predicate on windows, by workspace index, title or app id.
#[derive(Debug)]
pub struct WindowRulePattern {
    /// The workspace index the window is getting spawned on.
    workspace: Option<usize>,
    /// The window title to match on; consulted before the app id, since a
    /// title is the more specific of the two.
    title: Option<String>,
    /// The app id to match on, also known as the window class.
    app_id: Option<String>,
}

impl View for WindowRulePattern {
    type V = PatternView;

    closed spec fn view(&self) -> PatternView {
        PatternView {
            workspace: self.workspace,
            title: text_of(self.title),
            app_id: text_of(self.app_id),
        }
    }
}

impl Default for WindowRulePattern {
    /// The pattern that names no criterion.
    fn default() -> (p: WindowRulePattern)
        ensures
            p@ == (PatternView { workspace: None, title: None, app_id: None }),
    {
        WindowRulePattern { workspace: None, title: None, app_id: None }
    }
}

impl WindowRulePattern {
    /// The pattern with the given criteria.
    pub fn new(workspace: Option<usize>, title: Option<String>, app_id: Option<String>) -> (p:
        WindowRulePattern)
        ensures
            p@ == (PatternView { workspace, title: text_of(title), app_id: text_of(app_id) }),
    {
        WindowRulePattern { workspace, title, app_id }
    }

    /// The workspace index the pattern names.
    pub fn workspace(&self) -> (w: Option<usize>)
        ensures
            w == self@.workspace,
    {
        self.workspace
    }

    /// The title the pattern names.
    pub fn title(&self) -> (t: &Option<String>)
        ensures
            text_of(*t) == self@.title,
    {
        &self.title
    }

    /// The app id the pattern names.
    pub fn app_id(&self) -> (a: &Option<String>)
        ensures
            text_of(*a) == self@.app_id,
    {
        &self.app_id
    }

    /// Whether the pattern selects `window`, which sits on the workspace with
    /// index `workspace`.
    pub fn matches(&self, window: &FhtWindow, workspace: usize) -> (b: bool)
        ensures
            b == self@.matches(window@, workspace),
    {
        match &self.workspace {
            Some(workspace_idx) => *workspace_idx == workspace,
            None => match &self.title {
                Some(title) => *window.title() == *title,
                None => match &self.app_id {
                    Some(app_id) => *window.app_id() == *app_id,
                    None => false,
                },
            },
        }
    }
}

/// The mathematical content of a [`WindowMapSettings`].
pub struct MapSettingsView {
    pub floating: bool,
    pub fullscreen: bool,
    pub centered: bool,
    pub output: Option<Seq<char>>,
    pub workspace: Option<usize>,
}

impl MapSettingsView {
    /// Not floating, not fullscreen, centered, on the output and workspace
    /// the window was proposed for.
    pub open spec fn initial() -> MapSettingsView {
        MapSettingsView { floating: false, fullscreen: false, centered: true, output: None, workspace: None }
    }
}

/// Initial settings for a window when mapping it.
#[derive(Debug)]
pub struct WindowMapSettings {
    /// Should the window be floating?
    pub floating: bool,
    /// Should the window be fullscreen?
    pub fullscreen: bool,
    /// If the window is floating, should it be centered?
    pub centered: bool,
    /// The name of the output to map the window on.
    pub output: Option<String>,
    /// The index of the workspace of that output to map the window on.
    pub workspace: Option<usize>,
}

impl View for WindowMapSettings {
    type V = MapSettingsView;

    open spec fn view(&self) -> MapSettingsView {
        MapSettingsView {
            floating: self.floating,
            fullscreen: self.fullscreen,
            centered: self.centered,
            output: text_of(self.output),
            workspace: self.workspace,
        }
    }
}

impl Default for WindowMapSettings {
    fn default() -> (s: WindowMapSettings)
        ensures
            s@ == MapSettingsView::initial(),
    {
        WindowMapSettings {
            floating: false,
            fullscreen: false,
            centered: default_true(),
            output: None,
            workspace: None,
        }
    }
}

} // verus!
