use kim::hooks::{classify_key, ctrl_after, is_ctrl_copy, is_ctrl_paste, is_visible_char, InputEvent};

const VK_A: u32 = 0x41;
const VK_C: u32 = 0x43;
const VK_V: u32 = 0x56;
const VK_F5: u32 = 0x74;
const VK_RETURN: u32 = 0x0D;
const VK_PROCESSKEY: u32 = 0xE5;
const VK_LCONTROL: u32 = 0xA2;

#[test]
fn visible_keys() {
    for vk in [0x20, 0x30, 0x39, 0x41, 0x5A, 0x60, 0x6B, 0x6D, 0x6F, 0xBA, 0xC0, 0xDB, 0xDF, 0xE2] {
        assert!(is_visible_char(vk), "{vk:#x}");
    }
    for vk in [VK_RETURN, VK_F5, VK_PROCESSKEY, VK_LCONTROL, 0x10, 0x25, 0x6C, 0x2E, 0x09] {
        assert!(!is_visible_char(vk), "{vk:#x}");
    }
}

#[test]
fn clipboard_shortcuts() {
    assert!(is_ctrl_copy(VK_C, true));
    assert!(!is_ctrl_copy(VK_C, false));
    assert!(is_ctrl_paste(VK_V, true));
    assert!(!is_ctrl_paste(VK_A, true));
}

#[test]
fn key_presses_are_classified() {
    assert!(matches!(classify_key(VK_A, false, false, false), InputEvent::VisibleChar));
    assert!(matches!(classify_key(VK_A, false, false, true), InputEvent::Keystroke));
    assert!(matches!(classify_key(VK_A, true, false, false), InputEvent::Keystroke));
    assert!(matches!(classify_key(VK_A, false, true, false), InputEvent::Keystroke));
    assert!(matches!(classify_key(VK_C, true, false, false), InputEvent::CtrlCopy));
    assert!(matches!(classify_key(VK_V, true, false, true), InputEvent::CtrlPaste));
    assert!(matches!(classify_key(VK_C, false, false, false), InputEvent::VisibleChar));
    assert!(matches!(classify_key(VK_F5, false, false, false), InputEvent::Keystroke));
    assert!(matches!(classify_key(VK_PROCESSKEY, false, false, false), InputEvent::Keystroke));
}

#[test]
fn ctrl_state_follows_the_ctrl_keys() {
    assert!(ctrl_after(false, VK_LCONTROL, true));
    assert!(!ctrl_after(true, VK_LCONTROL, false));
    assert!(ctrl_after(true, VK_A, false));
    assert!(!ctrl_after(false, VK_A, true));
    assert!(ctrl_after(false, 0x11, true));
}
