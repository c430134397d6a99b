use nautilus::delivery::{first_oversized, upload_status};
use nautilus::settings::SettingsMap;
use nautilus::topics::{whitelist_updated_text, TopicSettings};

#[test]
fn settings_command_replies() {
    let mut m = SettingsMap::new();
    assert_eq!(m.settings_command(1, ""), "Settings:\n\u{251c} Auto mode: ON\n\u{2514} Usage: /settings auto <on|off>");
    assert_eq!(m.settings_command(1, " auto off "), "Auto mode: OFF\nFormat selection will appear on /dl.");
    assert!(!m.get(1).auto_mode);
    assert_eq!(m.settings_command(1, "auto"), "Auto mode: OFF\nUsage: /settings auto <on|off>");
    assert_eq!(m.settings_command(1, "auto  on"), "Auto mode: OFF\nUsage: /settings auto <on|off>");
    assert_eq!(m.settings_command(1, "auto 1"), "Auto mode: ON\nFormat selection will be skipped.");
    assert!(m.get(1).auto_mode);
    assert!(m.get(2).auto_mode);
}

#[test]
fn whitelist_texts() {
    let mut t = TopicSettings::default();
    assert_eq!(
        t.whitelist_report(-5),
        "Nautilus Topic Whitelist Settings\n\nCurrent status: No restrictions set (Any topic is allowed).\n\nTo set whitelist: <code>/settingsid &lt;id1&gt; &lt;id2&gt; ...</code>\nTo clear: <code>/settingsid clear</code>"
    );
    t.set_allowed_topics(-5, vec![4, -2]);
    assert!(t.whitelist_report(-5).contains("Current status: Whitelisted Topic IDs: <code>4</code>, <code>-2</code>\n\n"));
    assert_eq!(
        whitelist_updated_text(&vec![7]),
        "Successfully updated whitelisted topic IDs for this group to: <code>7</code>"
    );
}

#[test]
fn upload_progress_lines() {
    assert_eq!(upload_status(0, 1, "a.mp4", 10), "Uploading: a.mp4 (10 bytes)");
    assert_eq!(upload_status(1, 3, "b.jpg", 2048), "Uploading 2/3: b.jpg (2048 bytes)");
    assert_eq!(first_oversized(&vec![1, 5, 9, 20], 8), Some(2));
    assert_eq!(first_oversized(&vec![1, 5], 8), None);
}
