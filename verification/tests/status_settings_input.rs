use read_this::input::{
    accept_copied, ctrl_c_keystrokes, hotkey_poll, key_send_result, key_state_is_down,
    shortcut_unavailable_status, tray_action, tray_menu, MenuEntry, TrayAction, VK_C, VK_CONTROL,
};
use read_this::settings::AppSettings;
use read_this::status::ReadStatus;

#[test]
fn status_constructors() {
    let cases = [
        (ReadStatus::idle("a"), "Idle"),
        (ReadStatus::reading("a"), "Reading"),
        (ReadStatus::fetching("a"), "FetchingVoice"),
        (ReadStatus::error("a"), "Error"),
    ];
    for (s, state) in cases {
        assert_eq!(s.state, state);
        assert_eq!(s.message, "a");
    }
    let d = ReadStatus::idle("Stopped.").duplicate();
    assert_eq!((d.state.as_str(), d.message.as_str()), ("Idle", "Stopped."));
}

#[test]
fn default_settings() {
    let s = AppSettings::default();
    assert_eq!(s.voice_id, "en-US-EmmaMultilingualNeural");
    assert_eq!(s.rate, 15);
    assert_eq!(s.volume, 100);
    assert_eq!(s.hotkey, "Ctrl+Alt+R");
    assert!(!s.enable_local_fallback);
    assert!(s.start_minimized);
}

#[test]
fn tray_actions_by_id() {
    assert!(tray_action("open") == TrayAction::OpenPanel);
    assert!(tray_action("read") == TrayAction::ReadSelection);
    assert!(tray_action("stop") == TrayAction::Stop);
    assert!(tray_action("test") == TrayAction::TestVoice);
    assert!(tray_action("quit") == TrayAction::Quit);
    assert!(tray_action("Open") == TrayAction::Ignore);
    assert!(tray_action("") == TrayAction::Ignore);
}

#[test]
fn tray_menu_entries() {
    let menu = tray_menu();
    let shown: Vec<Option<(String, String)>> = menu
        .iter()
        .map(|e| match e {
            MenuEntry::Item { id, label } => Some((id.clone(), label.clone())),
            MenuEntry::Separator => None,
        })
        .collect();
    let expected = vec![
        Some(("open".to_string(), "Open Panel".to_string())),
        Some(("read".to_string(), "Read Highlighted Text".to_string())),
        Some(("stop".to_string(), "Stop".to_string())),
        Some(("test".to_string(), "Test Voice".to_string())),
        None,
        Some(("quit".to_string(), "Quit".to_string())),
    ];
    assert_eq!(shown, expected);
}

#[test]
fn key_state_high_bit() {
    assert!(key_state_is_down(i16::MIN));
    assert!(key_state_is_down(-32767));
    assert!(key_state_is_down(-1));
    assert!(!key_state_is_down(0));
    assert!(!key_state_is_down(1));
    assert!(!key_state_is_down(i16::MAX));
}

#[test]
fn hotkey_fires_on_press_only() {
    assert_eq!(hotkey_poll(false, true, true, true), (true, true));
    assert_eq!(hotkey_poll(true, true, true, true), (false, true));
    assert_eq!(hotkey_poll(true, true, false, true), (false, false));
    assert_eq!(hotkey_poll(false, true, true, false), (false, false));
}

#[test]
fn ctrl_c_sequence() {
    let k: Vec<(u16, bool)> = ctrl_c_keystrokes().iter().map(|s| (s.key, s.key_up)).collect();
    assert_eq!(k, vec![(VK_CONTROL, false), (VK_C, false), (VK_C, true), (VK_CONTROL, true)]);
    assert_eq!((VK_CONTROL, VK_C), (0x11, 0x43));
}

#[test]
fn key_send_results() {
    assert_eq!(key_send_result(1), Ok(()));
    assert_eq!(key_send_result(0), Err("Windows did not accept simulated Ctrl+C.".to_string()));
}

#[test]
fn copied_text_acceptance() {
    assert_eq!(accept_copied(Some("hello".to_string())), Some("hello".to_string()));
    assert_eq!(accept_copied(Some("  \n".to_string())), None);
    assert_eq!(accept_copied(None), None);
}

#[test]
fn shortcut_status_message() {
    let s = shortcut_unavailable_status("already registered");
    assert_eq!(s.state, "Idle");
    assert_eq!(s.message, "Global shortcut unavailable, using keyboard watcher: already registered");
}
