//! The user's input: the tray menu, the keyboard shortcut, the simulated
//! copy of the selection and what the clipboard gives back.

use vstd::prelude::*;
use crate::status::{idle_word, ReadStatus};
use crate::text::{chars_equal, chars_of, is_blank, is_blank_spec};

verus! {

/// Virtual-key code of the Ctrl key.
pub const VK_CONTROL: u16 = 0x11;

/// Virtual-key code of the Alt key.
pub const VK_MENU: u16 = 0x12;

/// Virtual-key code of the C key.
pub const VK_C: u16 = 0x43;

/// Virtual-key code of the R key.
pub const VK_R: u16 = 0x52;

/// How many times the clipboard is read, at 80 ms intervals, after the
/// simulated copy.
pub const CLIPBOARD_ATTEMPTS: u32 = 15;

/// How many times, at 50 ms intervals, the reader waits for Ctrl and Alt
/// to be released before copying.
pub const MODIFIER_RELEASE_ATTEMPTS: u32 = 20;

/// What a tray menu entry does.
#[derive(PartialEq, Eq, Structural)]
pub enum TrayAction {
    OpenPanel,
    ReadSelection,
    Stop,
    TestVoice,
    Quit,
    Ignore,
}

/// The action of the tray menu entry with identifier `id`.
pub open spec fn tray_action_spec(id: Seq<char>) -> TrayAction {
    if id == "open"@ {
        TrayAction::OpenPanel
    } else if id == "read"@ {
        TrayAction::ReadSelection
    } else if id == "stop"@ {
        TrayAction::Stop
    } else if id == "test"@ {
        TrayAction::TestVoice
    } else if id == "quit"@ {
        TrayAction::Quit
    } else {
        TrayAction::Ignore
    }
}

/// The action of the tray menu entry with identifier `id`.
pub fn tray_action(id: &str) -> (a: TrayAction)
    ensures
        a == tray_action_spec(id@),
{
    let id = chars_of(id);
    if chars_equal(&id, &chars_of("open")) {
        TrayAction::OpenPanel
    } else if chars_equal(&id, &chars_of("read")) {
        TrayAction::ReadSelection
    } else if chars_equal(&id, &chars_of("stop")) {
        TrayAction::Stop
    } else if chars_equal(&id, &chars_of("test")) {
        TrayAction::TestVoice
    } else if chars_equal(&id, &chars_of("quit")) {
        TrayAction::Quit
    } else {
        TrayAction::Ignore
    }
}

/// An entry of the tray menu.
pub enum MenuEntry {
    Item { id: String, label: String },
    Separator,
}

/// Whether `e` is the item with the given identifier and label.
pub open spec fn is_item(e: MenuEntry, id: Seq<char>, label: Seq<char>) -> bool {
    e matches MenuEntry::Item { id: i, label: l } && i@ == id && l@ == label
}

fn item(id: &str, label: &str) -> (e: MenuEntry)
    ensures
        is_item(e, id@, label@),
{
    MenuEntry::Item { id: id.to_string(), label: label.to_string() }
}

/// The tray menu, top to bottom.
pub fn tray_menu() -> (m: Vec<MenuEntry>)
    ensures
        m@.len() == 6,
        is_item(m@[0], "open"@, "Open Panel"@),
        is_item(m@[1], "read"@, "Read Highlighted Text"@),
        is_item(m@[2], "stop"@, "Stop"@),
        is_item(m@[3], "test"@, "Test Voice"@),
        m@[4] is Separator,
        is_item(m@[5], "quit"@, "Quit"@),
{
    let mut m: Vec<MenuEntry> = Vec::new();
    m.push(item("open", "Open Panel"));
    m.push(item("read", "Read Highlighted Text"));
    m.push(item("stop", "Stop"));
    m.push(item("test", "Test Voice"));
    m.push(MenuEntry::Separator);
    m.push(item("quit", "Quit"));
    m
}

/// Whether a key is down, from its `GetAsyncKeyState` value: the most
/// significant bit, the sign bit of the `i16`, is set while it is down.
pub fn key_state_is_down(state: i16) -> (down: bool)
    ensures
        down == (state < 0),
{
    let bit = state & (0x8000u16 as i16);
    assert((state & (0x8000u16 as i16)) != 0 <==> state < 0) by (bit_vector);
    bit != 0
}

/// One poll of the shortcut watcher, given whether Ctrl+Alt+R was down at
/// the previous poll and whether each key is down now: returns whether to
/// read the selection, and whether the shortcut is down now.
pub fn hotkey_poll(was_down: bool, ctrl: bool, alt: bool, r: bool) -> (res: (bool, bool))
    ensures
        res.1 == (ctrl && alt && r),
        res.0 == (res.1 && !was_down),
{
    let down = ctrl && alt && r;
    (down && !was_down, down)
}

/// A simulated key event: the key, and whether it is released (else pressed).
pub struct KeyStroke {
    pub key: u16,
    pub key_up: bool,
}

/// The key events of Ctrl+C: press Ctrl, press C, release C, release Ctrl.
pub fn ctrl_c_keystrokes() -> (k: Vec<KeyStroke>)
    ensures
        k@.len() == 4,
        k@[0] == (KeyStroke { key: VK_CONTROL, key_up: false }),
        k@[1] == (KeyStroke { key: VK_C, key_up: false }),
        k@[2] == (KeyStroke { key: VK_C, key_up: true }),
        k@[3] == (KeyStroke { key: VK_CONTROL, key_up: true }),
{
    let mut k: Vec<KeyStroke> = Vec::new();
    k.push(KeyStroke { key: VK_CONTROL, key_up: false });
    k.push(KeyStroke { key: VK_C, key_up: false });
    k.push(KeyStroke { key: VK_C, key_up: true });
    k.push(KeyStroke { key: VK_CONTROL, key_up: true });
    k
}

/// The outcome of `SendInput` for one key event, given the number of
/// events Windows accepted.
pub fn key_send_result(sent: u32) -> (r: Result<(), String>)
    ensures
        sent != 0 ==> r is Ok,
        sent == 0 ==> (r matches Err(e) && e@ == "Windows did not accept simulated Ctrl+C."@),
{
    if sent == 0 {
        Err("Windows did not accept simulated Ctrl+C.".to_string())
    } else {
        Ok(())
    }
}

/// What one read of the clipboard yields: its text, unless the read
/// failed or the text is empty once trimmed (then the reader keeps
/// polling).
pub fn accept_copied(read: Option<String>) -> (r: Option<String>)
    ensures
        match read {
            Some(t) => if is_blank_spec(t@) { r is None } else { r == Some(t) },
            None => r is None,
        },
{
    match read {
        Some(t) => {
            if is_blank(t.as_str()) {
                None
            } else {
                Some(t)
            }
        },
        None => None,
    }
}

/// The status reported when the global shortcut cannot be registered and
/// the reader watches the keyboard instead.
pub fn shortcut_unavailable_status(error: &str) -> (s: ReadStatus)
    ensures
        s.state@ == idle_word(),
        s.message@ == "Global shortcut unavailable, using keyboard watcher: "@ + error@,
{
    let mut m = "Global shortcut unavailable, using keyboard watcher: ".to_string();
    m.append(error);
    ReadStatus::idle(m.as_str())
}

} // verus!
