use showlink::text_entry::TextEntry;
use showlink::ui::{ConfigurationEditorTab, LayoutSettings, TabView};

#[test]
fn a_fresh_prompt_is_closed_and_empty() {
    let entry = TextEntry::new();
    assert!(!entry.is_open());
    assert_eq!(entry.get_text(), "");
    assert_eq!(entry.get_title(), "");
}

#[test]
fn open_is_kept_by_the_first_opener() {
    let mut entry = TextEntry::new();
    entry.open("rename cue");
    assert!(entry.is_open());
    assert_eq!(entry.get_title(), "rename cue");

    // A second caller cannot steal the prompt while it is open.
    entry.open("unlock");
    assert_eq!(entry.get_title(), "rename cue");
}

#[test]
fn submissions_are_collected_once_and_only_under_the_opening_title() {
    let mut entry = TextEntry::new();
    entry.open("unlock");
    entry.password(true);
    assert!(entry.is_password());
    entry.set_text("pw123");
    entry.submit();
    assert!(!entry.is_open());

    assert!(!entry.submitted("rename cue"));
    assert!(entry.submitted("unlock"));
    assert_eq!(entry.get_text(), "pw123");
    // Collecting consumed the submission.
    assert!(!entry.submitted("unlock"));
}

#[test]
fn done_clears_text_and_title() {
    let mut entry = TextEntry::new();
    entry.open("rename cue");
    entry.set_text("opening night");
    entry.submit();
    assert!(entry.submitted("rename cue"));
    entry.done();
    assert_eq!(entry.get_text(), "");
    assert_eq!(entry.get_title(), "");
    assert!(!entry.is_open());
}

#[test]
fn layout_defaults_select_the_network_pane() {
    let layout = LayoutSettings::default();
    assert_eq!(layout.configuration_editor_tab, ConfigurationEditorTab::Network);
    assert!(!layout.routing_window_open);
    assert!(!layout.network_info_window_open);
    assert!(!layout.channel_edit_window_open);
    let tab = TabView::Options;
    assert!(matches!(tab, TabView::Options));
}
