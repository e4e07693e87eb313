//! State of the panels around the terminal: the tool panel, the settings
//! window, the top bar, and what they ask of the window.

use vstd::prelude::*;

use crate::quickcmd::QuickCommand;

verus! {

/// The size of a pseudo-terminal in character cells.
#[derive(Clone, Copy, Debug, PartialEq, Eq, Structural)]
pub struct PtySize {
    pub rows: u16,
    pub cols: u16,
}

/// Where the terminal view is asked to scroll.
#[derive(Clone, Copy, Debug, PartialEq, Eq, Structural)]
pub enum ScrollRequest {
    /// So that the top of the screen, below the scrollback, is visible.
    ScreenTop,
    /// So that the cursor line is at the top.
    CursorTop,
    /// So that the cursor line is visible.
    CursorLine,
}

/// The tabs of the tool panel.
#[derive(Clone, Copy, Debug, PartialEq, Eq, Structural)]
pub enum DevToolsTab {
    QuickCommands,
    VtStream,
    Network,
}

/// A quick command that the user clicked in the tool panel.
#[derive(Debug)]
pub struct QuickCmdAction {
    pub command: String,
    pub auto_execute: bool,
}

/// State of the tool panel.
#[derive(Debug)]
pub struct DevToolsState {
    pub active_tab: DevToolsTab,
    /// The tag by which the quick commands of the panel are filtered.
    pub qcmd_filter_tag: String,
}

impl Default for DevToolsState {
    /// The quick commands tab, with no filter.
    fn default() -> (state: Self)
        ensures
            state.active_tab == DevToolsTab::QuickCommands,
            state.qcmd_filter_tag@.len() == 0,
    {
        DevToolsState { active_tab: DevToolsTab::QuickCommands, qcmd_filter_tag: String::new() }
    }
}

/// The tabs of the settings window.
#[derive(Clone, Copy, Debug, PartialEq, Eq, Structural)]
pub enum SettingsTab {
    QuickCommands,
}

/// State of the settings window.
#[derive(Debug)]
pub struct SettingsState {
    pub open: bool,
    pub active_tab: SettingsTab,
    /// The tag by which the list is filtered.
    pub filter_tag: String,
    /// The command in the form, a copy of the one being edited.
    pub editing: Option<QuickCommand>,
    /// Whether the form holds a new command rather than an existing one.
    pub creating_new: bool,
    /// Whether the next key combination is recorded as a binding.
    pub recording_keybinding: bool,
}

impl Default for SettingsState {
    /// The window closed, with no filter and nothing in the form.
    fn default() -> (state: Self)
        ensures
            !state.open,
            state.active_tab == SettingsTab::QuickCommands,
            state.filter_tag@.len() == 0,
            state.editing is None,
            !state.creating_new,
            !state.recording_keybinding,
    {
        SettingsState {
            open: false,
            active_tab: SettingsTab::QuickCommands,
            filter_tag: String::new(),
            editing: None,
            creating_new: false,
            recording_keybinding: false,
        }
    }
}

/// What the top bar is shown.
pub struct TopBarInput<'a> {
    pub terminal_exited: bool,
    pub terminal_connecting: bool,
    /// Set when the user asks for a new session.
    pub reconnect_requested: &'a mut bool,
}

/// What the top bar asks of the window.
#[derive(Clone, Copy, Debug, PartialEq, Eq, Structural)]
pub struct TopBarAction {
    pub request_minimize: bool,
    pub request_toggle_maximize: bool,
    pub request_close: bool,
    pub request_drag_window: bool,
}

impl Default for TopBarAction {
    /// Nothing asked.
    fn default() -> (action: Self)
        ensures
            !action.request_minimize,
            !action.request_toggle_maximize,
            !action.request_close,
            !action.request_drag_window,
    {
        TopBarAction {
            request_minimize: false,
            request_toggle_maximize: false,
            request_close: false,
            request_drag_window: false,
        }
    }
}

} // verus!
