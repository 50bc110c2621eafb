//! Input events produced by the hooks and their effect on the per-process counters.

use vstd::prelude::*;

use crate::stats::app_tracker::{AppCounterMap, AppEntry, AppField};

verus! {

/// Events produced by input hooks and consumed by the event-processing loop.
#[derive(Debug, Clone, Copy)]
pub enum InputEvent {
    /// A keystroke that is not a visible character and not a clipboard shortcut
    /// (e.g. function key, navigation key, modifier, VK_PROCESSKEY, etc.).
    Keystroke,
    /// A directly-typed visible character (also counts as a keystroke).
    VisibleChar,
    /// Ctrl+C was pressed (also counts as a keystroke).
    CtrlCopy,
    /// Ctrl+V was pressed (also counts as a keystroke).
    CtrlPaste,
    /// A mouse button was clicked.
    MouseClick,
}

/// The per-process counters after `event` happened in `process`: every
/// keyboard event is a keystroke, a visible character or clipboard shortcut
/// also bumps its own counter, mouse clicks are not tracked per process, and
/// events without a known process are ignored.
pub open spec fn after_event(
    m: Map<Seq<char>, AppEntry>,
    process: Seq<char>,
    event: InputEvent,
) -> Map<Seq<char>, AppEntry> {
    if process.len() == 0 {
        m
    } else {
        let e = crate::stats::app_tracker::entry_of(m, process);
        let k = crate::stats::app_tracker::bumped(e, AppField::Keystrokes);
        match event {
            InputEvent::Keystroke => m.insert(process, k),
            InputEvent::VisibleChar => m.insert(process, crate::stats::app_tracker::bumped(k, AppField::Characters)),
            InputEvent::CtrlCopy => m.insert(process, crate::stats::app_tracker::bumped(k, AppField::CtrlC)),
            InputEvent::CtrlPaste => m.insert(process, crate::stats::app_tracker::bumped(k, AppField::CtrlV)),
            InputEvent::MouseClick => m,
        }
    }
}

/// Whether routing `event` for `process` keeps every counter within `u64`.
pub open spec fn event_fits(m: Map<Seq<char>, AppEntry>, process: Seq<char>, event: InputEvent) -> bool {
    let e = crate::stats::app_tracker::entry_of(m, process);
    process.len() == 0 || match event {
        InputEvent::Keystroke => e.keystrokes < u64::MAX,
        InputEvent::VisibleChar => e.keystrokes < u64::MAX && e.characters < u64::MAX,
        InputEvent::CtrlCopy => e.keystrokes < u64::MAX && e.ctrl_c < u64::MAX,
        InputEvent::CtrlPaste => e.keystrokes < u64::MAX && e.ctrl_v < u64::MAX,
        InputEvent::MouseClick => true,
    }
}

/// Whether routing `event` for `process` keeps every counter within `u64`.
pub fn event_fits_exec(counters: &AppCounterMap, process: &str, event: InputEvent) -> (r: bool)
    ensures
        r == event_fits(counters@, process@, event),
{
    if process.is_empty() {
        return true;
    }
    let e = counters.entry(process);
    match event {
        InputEvent::Keystroke => e.keystrokes < u64::MAX,
        InputEvent::VisibleChar => e.keystrokes < u64::MAX && e.characters < u64::MAX,
        InputEvent::CtrlCopy => e.keystrokes < u64::MAX && e.ctrl_c < u64::MAX,
        InputEvent::CtrlPaste => e.keystrokes < u64::MAX && e.ctrl_v < u64::MAX,
        InputEvent::MouseClick => true,
    }
}

/// Attribute one input event to the foreground process `process`.
pub fn route_event(counters: &mut AppCounterMap, process: &str, event: InputEvent)
    requires
        old(counters).wf(),
        event_fits(old(counters)@, process@, event),
    ensures
        final(counters).wf(),
        final(counters)@ == after_event(old(counters)@, process@, event),
{
    if process.is_empty() {
        return;
    }
    match event {
        InputEvent::Keystroke => {
            counters.add_keystroke(process);
        },
        InputEvent::VisibleChar => {
            counters.add_keystroke(process);
            counters.add_character(process);
        },
        InputEvent::CtrlCopy => {
            counters.add_keystroke(process);
            counters.add_ctrl_c(process);
        },
        InputEvent::CtrlPaste => {
            counters.add_keystroke(process);
            counters.add_ctrl_v(process);
        },
        InputEvent::MouseClick => {},
    }
}

/// Virtual-key code of the `C` key.
pub const VK_C: u32 = 0x43;
/// Virtual-key code of the `V` key.
pub const VK_V: u32 = 0x56;

/// Whether `vk` is one of the Ctrl keys (either side, or the generic code).
pub open spec fn is_ctrl_key(vk: u32) -> bool {
    vk == 0x11 || vk == 0xA2 || vk == 0xA3
}

/// Whether `vk` is a key that types a visible character: space, digits,
/// letters, the numeric keypad's digits and operators, and the OEM
/// punctuation keys. Function, navigation, editing and modifier keys, and the
/// IME's `VK_PROCESSKEY`, are not.
pub open spec fn is_visible_key(vk: u32) -> bool {
    ||| vk == 0x20
    ||| 0x30 <= vk <= 0x39
    ||| 0x41 <= vk <= 0x5A
    ||| 0x60 <= vk <= 0x6B
    ||| 0x6D <= vk <= 0x6F
    ||| 0xBA <= vk <= 0xC0
    ||| 0xDB <= vk <= 0xDF
    ||| vk == 0xE2
}

/// The event one key press produces: Ctrl+C and Ctrl+V are clipboard
/// shortcuts; a visible key pressed without Ctrl or Alt, outside a password
/// field, types a character; every other press is a plain keystroke.
pub open spec fn key_event(vk: u32, ctrl_down: bool, alt_down: bool, in_password: bool) -> InputEvent {
    if ctrl_down && vk == VK_C {
        InputEvent::CtrlCopy
    } else if ctrl_down && vk == VK_V {
        InputEvent::CtrlPaste
    } else if !ctrl_down && !alt_down && !in_password && is_visible_key(vk) {
        InputEvent::VisibleChar
    } else {
        InputEvent::Keystroke
    }
}

/// Whether `vk` types a visible character.
pub fn is_visible_char(vk: u32) -> (r: bool)
    ensures
        r == is_visible_key(vk),
{
    vk == 0x20 || (0x30 <= vk && vk <= 0x39) || (0x41 <= vk && vk <= 0x5A) || (0x60 <= vk && vk <= 0x6B)
        || (0x6D <= vk && vk <= 0x6F) || (0xBA <= vk && vk <= 0xC0) || (0xDB <= vk && vk <= 0xDF) || vk
        == 0xE2
}

/// Whether a press of `vk` with Ctrl held is the copy shortcut.
pub fn is_ctrl_copy(vk: u32, ctrl_down: bool) -> (r: bool)
    ensures
        r == (ctrl_down && vk == VK_C),
{
    ctrl_down && vk == VK_C
}

/// Whether a press of `vk` with Ctrl held is the paste shortcut.
pub fn is_ctrl_paste(vk: u32, ctrl_down: bool) -> (r: bool)
    ensures
        r == (ctrl_down && vk == VK_V),
{
    ctrl_down && vk == VK_V
}

/// Classify one key press.
pub fn classify_key(vk: u32, ctrl_down: bool, alt_down: bool, in_password: bool) -> (e: InputEvent)
    ensures
        e == key_event(vk, ctrl_down, alt_down, in_password),
{
    if is_ctrl_copy(vk, ctrl_down) {
        InputEvent::CtrlCopy
    } else if is_ctrl_paste(vk, ctrl_down) {
        InputEvent::CtrlPaste
    } else if !ctrl_down && !alt_down && !in_password && is_visible_char(vk) {
        InputEvent::VisibleChar
    } else {
        InputEvent::Keystroke
    }
}

/// Whether Ctrl is held after `vk` went down (`pressed`) or up: a Ctrl key
/// sets it to its own state, any other key leaves it as it was.
pub fn ctrl_after(ctrl_down: bool, vk: u32, pressed: bool) -> (r: bool)
    ensures
        r == (if is_ctrl_key(vk) { pressed } else { ctrl_down }),
{
    if vk == 0x11 || vk == 0xA2 || vk == 0xA3 {
        pressed
    } else {
        ctrl_down
    }
}

} // verus!
