//! Plain user-interface state that the client keeps between frames: which
//! tab is shown and which configuration-editor windows are open. Nothing
//! here touches the transport; the types are data the window layer persists.

use vstd::prelude::*;

verus! {

/// The main view the client shows.
#[derive(Debug, Clone, Copy, PartialEq, Eq, Structural)]
pub enum TabView {
    Control,
    Sources,
    Cue,
    Options,
}

/// Which pane of the configuration editor is selected.
#[derive(Debug, Clone, Copy, PartialEq, Eq, Structural, Default)]
pub enum ConfigurationEditorTab {
    Routing,
    #[default]
    Network,
    Channels,
}

/// Window-layout choices the client remembers.
#[derive(Debug, Clone, Copy, PartialEq, Eq, Structural, Default)]
pub struct LayoutSettings {
    pub configuration_editor_tab: ConfigurationEditorTab,
    pub routing_window_open: bool,
    pub network_info_window_open: bool,
    pub channel_edit_window_open: bool,
}

} // verus!
