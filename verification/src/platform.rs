//! Rules the Windows integration applies: how keyboard-hook messages are read, which
//! foreground window counts as the game, the global hotkey's check and modifier flags,
//! and the texts shown in logs and the tray.

use crate::config::schema::{Hotkey, ProfilesConfig, ProfilesConfigView};
use crate::domain::classes::{class_name_by_id, class_name_of};
use crate::domain::display::{custom_config_label, custom_label};
use crate::error::{AppError, AppErrorKind, AppResult};
use crate::keyed_map::keyed_get;
use crate::text::chars_of;
use vstd::prelude::*;

verus! {

// ---------------------------------------------------------------------------
// Keyboard hook messages
// ---------------------------------------------------------------------------
pub const WM_KEYDOWN: u32 = 0x0100;

pub const WM_KEYUP: u32 = 0x0101;

pub const WM_SYSKEYDOWN: u32 = 0x0104;

pub const WM_SYSKEYUP: u32 = 0x0105;

/// Flag of a hook record for an injected event.
pub const LLKHF_INJECTED: u32 = 0x10;

/// Flag of a hook record for an event injected from a lower integrity level.
pub const LLKHF_LOWER_IL_INJECTED: u32 = 0x02;

/// A key-down, plain or with Alt.
pub fn is_keydown_message(message: u32) -> (b: bool)
    ensures
        b == (message == WM_KEYDOWN || message == WM_SYSKEYDOWN),
{
    message == WM_KEYDOWN || message == WM_SYSKEYDOWN
}

/// A key-up, plain or with Alt.
pub fn is_keyup_message(message: u32) -> (b: bool)
    ensures
        b == (message == WM_KEYUP || message == WM_SYSKEYUP),
{
    message == WM_KEYUP || message == WM_SYSKEYUP
}

/// The event was injected, at any integrity level.
pub fn is_injected_keyboard_flags(flags: u32) -> (b: bool)
    ensures
        b == (flags & LLKHF_INJECTED != 0 || flags & LLKHF_LOWER_IL_INJECTED != 0),
{
    flags & LLKHF_INJECTED != 0 || flags & LLKHF_LOWER_IL_INJECTED != 0
}

/// A keyboard-hook event as the engines read it.
#[derive(Debug, Clone, Copy, PartialEq, Eq, Structural)]
pub struct KeyboardHookEvent {
    pub vk: u16,
    pub message: u32,
    pub is_keydown: bool,
    pub is_keyup: bool,
    pub is_injected: bool,
}

impl KeyboardHookEvent {
    /// The event of a hook record, from its virtual key, message and flags.
    pub fn from_parts(vk_code: u32, message: u32, flags: u32) -> (r: Self)
        ensures
            r.vk == vk_code as u16,
            r.message == message,
            r.is_keydown == (message == WM_KEYDOWN || message == WM_SYSKEYDOWN),
            r.is_keyup == (message == WM_KEYUP || message == WM_SYSKEYUP),
            r.is_injected == (flags & LLKHF_INJECTED != 0 || flags & LLKHF_LOWER_IL_INJECTED != 0),
            !(r.is_keydown && r.is_keyup),
    {
        KeyboardHookEvent {
            vk: vk_code as u16,
            message,
            is_keydown: is_keydown_message(message),
            is_keyup: is_keyup_message(message),
            is_injected: is_injected_keyboard_flags(flags),
        }
    }
}

// ---------------------------------------------------------------------------
// The game window
// ---------------------------------------------------------------------------
/// Whether `needle` occurs in `hay` at position `i`.
pub open spec fn occurs_at(hay: Seq<char>, needle: Seq<char>, i: int) -> bool {
    0 <= i && i + needle.len() <= hay.len() && hay.subrange(i, i + needle.len()) == needle
}

/// Whether `needle` occurs in `hay`.
pub open spec fn contains_text(hay: Seq<char>, needle: Seq<char>) -> bool {
    exists|i: int| #[trigger] occurs_at(hay, needle, i)
}

/// Whether `needle` occurs in `hay`.
pub fn text_contains(hay: &str, needle: &str) -> (b: bool)
    ensures
        b == contains_text(hay@, needle@),
{
    let h = chars_of(hay);
    let n = chars_of(needle);
    if n.len() > h.len() {
        proof {
            assert forall|i: int| !#[trigger] occurs_at(hay@, needle@, i) by {}
        }
        return false;
    }
    let mut i: usize = 0;
    while i <= h.len() - n.len()
        invariant
            h@ == hay@,
            n@ == needle@,
            n.len() <= h.len(),
            i <= h.len() - n.len() + 1,
            forall|j: int| 0 <= j < i ==> !#[trigger] occurs_at(hay@, needle@, j),
        decreases h.len() - n.len() + 1 - i,
    {
        let mut k: usize = 0;
        let mut same = true;
        while k < n.len()
            invariant
                h@ == hay@,
                n@ == needle@,
                i + n.len() <= h.len(),
                k <= n.len(),
                same == forall|t: int| 0 <= t < k ==> hay@[i + t] == needle@[t],
            decreases n.len() - k,
        {
            if h[i + k] != n[k] {
                same = false;
            }
            k = k + 1;
        }
        if same {
            proof {
                assert(hay@.subrange(i as int, i + needle@.len()) =~= needle@);
                assert(occurs_at(hay@, needle@, i as int));
            }
            return true;
        }
        proof {
            if hay@.subrange(i as int, i + needle@.len()) == needle@ {
                let t = choose|t: int| 0 <= t < n.len() && hay@[i + t] != needle@[t];
                assert(hay@.subrange(i as int, i + needle@.len())[t] == hay@[i + t]);
            }
        }
        i = i + 1;
    }
    proof {
        assert forall|j: int| !#[trigger] occurs_at(hay@, needle@, j) by {
            if 0 <= j && j < i {
            }
        }
    }
    false
}

/// The game's window class.
pub open spec fn game_window_class() -> Seq<char> {
    "地下城与勇士"@
}

/// Notepad, which a debug build also accepts as the game for testing.
pub open spec fn debug_window_class() -> Seq<char> {
    "Notepad"@
}

/// `is_target_window_class_name` for a debug or a release build: a non-empty class
/// name that contains the game's class (or, in a debug build, Notepad's).
pub open spec fn target_window_class(name: Seq<char>, debug_build: bool) -> bool {
    name.len() > 0 && (contains_text(name, game_window_class()) || (debug_build && contains_text(
        name,
        debug_window_class(),
    )))
}

pub fn is_target_window_class_for_build(class_name: &str, debug_build: bool) -> (b: bool)
    ensures
        b == target_window_class(class_name@, debug_build),
{
    if class_name.is_empty() {
        return false;
    }
    text_contains(class_name, "地下城与勇士") || (debug_build && text_contains(class_name, "Notepad"))
}

/// `is_target_window_class_name` as a debug build decides it.
pub fn is_target_window_class_name(class_name: &str) -> (b: bool)
    ensures
        b == target_window_class(class_name@, true),
{
    is_target_window_class_for_build(class_name, true)
}

/// What the engines ask of the foreground window. The platform layer implements
/// `get_foreground_class_name`; the decision whether that window is the game's is made
/// here.
pub trait WindowDetector {
    /// The class names this detector may report for the foreground window. Which one it
    /// reports at a given moment depends on the system, so this is a relation and not a
    /// function of the detector. Unless a detector narrows it, any class name.
    open spec fn may_report_class(&self, class_name: Seq<char>) -> bool {
        true
    }

    /// The class name of the current foreground window, empty when there is none.
    fn get_foreground_class_name(&self) -> (r: String)
        ensures
            self.may_report_class(r@),
    ;

    /// Whether the game's window is in the foreground: the foreground window's class
    /// name is a target class, by the rule of a debug build (which also accepts Notepad).
    fn is_target_active(&self) -> (b: bool)
        ensures
            exists|class_name: Seq<char>|
                #[trigger] self.may_report_class(class_name) && b == target_window_class(class_name, true),
    {
        let class_name = self.get_foreground_class_name();
        is_target_window_class_name(class_name.as_str())
    }

    /// Whether the game's window is in the foreground, by the rule of a debug or a
    /// release build.
    fn is_target_active_for_build(&self, debug_build: bool) -> (b: bool)
        ensures
            exists|class_name: Seq<char>|
                #[trigger] self.may_report_class(class_name) && b == target_window_class(class_name, debug_build),
    {
        let class_name = self.get_foreground_class_name();
        is_target_window_class_for_build(class_name.as_str(), debug_build)
    }
}

// ---------------------------------------------------------------------------
// The global hotkey
// ---------------------------------------------------------------------------
/// Shift, Ctrl, Alt and their left and right keys.
pub open spec fn modifier_vk(vk: u16) -> bool {
    vk == 0x10 || vk == 0x11 || vk == 0x12 || (0xA0 <= vk <= 0xA5)
}

/// Whether `vk` is Shift, Ctrl, Alt or one of their left and right keys.
pub fn is_modifier_vk(vk: u16) -> (b: bool)
    ensures
        b == modifier_vk(vk),
{
    vk == 0x10 || vk == 0x11 || vk == 0x12 || (0xA0 <= vk && vk <= 0xA5)
}

pub open spec fn msg_hotkey_combination() -> Seq<char> {
    "启动/停止快捷键必须是组合键，例如 Ctrl + F8。"@
}

/// At least one of Ctrl, Alt, Shift, and a key that is not itself a
/// modifier.
pub fn validate_hotkey(hotkey: &Hotkey) -> (r: AppResult<()>)
    ensures
        r is Ok <==> ((hotkey.ctrl || hotkey.alt || hotkey.shift) && !modifier_vk(hotkey.vk)),
        r matches Err(e) ==> e.kind == AppErrorKind::Hotkey && e.message@ == msg_hotkey_combination(),
{
    if !(hotkey.ctrl || hotkey.alt || hotkey.shift) || is_modifier_vk(hotkey.vk) {
        return Err(AppError::hotkey(String::from_str("启动/停止快捷键必须是组合键，例如 Ctrl + F8。")));
    }
    Ok(())
}

/// Hotkey modifier flag for Alt.
pub const MOD_ALT: u32 = 0x0001;

/// Hotkey modifier flag for Ctrl.
pub const MOD_CONTROL: u32 = 0x0002;

/// Hotkey modifier flag for Shift.
pub const MOD_SHIFT: u32 = 0x0004;

/// Hotkey flag that suppresses auto-repeat.
pub const MOD_NOREPEAT: u32 = 0x4000;

/// The `RegisterHotKey` modifiers of a hotkey: its modifiers, without auto-repeat.
pub open spec fn modifier_flags(h: Hotkey) -> int {
    (if h.ctrl { MOD_CONTROL } else { 0 }) + (if h.alt { MOD_ALT } else { 0 }) + (if h.shift {
        MOD_SHIFT
    } else {
        0
    }) + MOD_NOREPEAT
}

/// Each modifier of a hotkey sets its own flag, whatever the others are: the flags hold
/// Ctrl exactly when the hotkey has Ctrl, Alt exactly when it has Alt, Shift exactly
/// when it has Shift, always no-repeat, and nothing else.
pub proof fn lemma_modifier_flags_bits(h: Hotkey)
    ensures
        0 <= modifier_flags(h) <= 0xFFFF_FFFF,
        ((modifier_flags(h) as u32) & MOD_CONTROL != 0) == h.ctrl,
        ((modifier_flags(h) as u32) & MOD_ALT != 0) == h.alt,
        ((modifier_flags(h) as u32) & MOD_SHIFT != 0) == h.shift,
        (modifier_flags(h) as u32) & MOD_NOREPEAT != 0,
        (modifier_flags(h) as u32) & !(MOD_CONTROL | MOD_ALT | MOD_SHIFT | MOD_NOREPEAT) == 0,
{
    let c = h.ctrl;
    let a = h.alt;
    let s = h.shift;
    let m = modifier_flags(h) as u32;
    assert(m == (if c { 2u32 } else { 0u32 }) + (if a { 1u32 } else { 0u32 }) + (if s { 4u32 } else { 0u32 })
        + 0x4000u32);
    assert((m & 2u32 != 0) == c && (m & 1u32 != 0) == a && (m & 4u32 != 0) == s && m & 0x4000u32 != 0 && m
        & !(2u32 | 1u32 | 4u32 | 0x4000u32) == 0) by (bit_vector)
        requires
            m == (if c { 2u32 } else { 0u32 }) + (if a { 1u32 } else { 0u32 }) + (if s { 4u32 } else { 0u32 })
                + 0x4000u32,
    ;
}

pub fn hotkey_modifiers(hotkey: &Hotkey) -> (r: u32)
    ensures
        r == modifier_flags(*hotkey),
        (r & MOD_CONTROL != 0) == hotkey.ctrl,
        (r & MOD_ALT != 0) == hotkey.alt,
        (r & MOD_SHIFT != 0) == hotkey.shift,
        r & MOD_NOREPEAT != 0,
        r & !(MOD_CONTROL | MOD_ALT | MOD_SHIFT | MOD_NOREPEAT) == 0,
{
    proof {
        lemma_modifier_flags_bits(*hotkey);
    }
    let mut m: u32 = 0;
    if hotkey.ctrl {
        m = m + MOD_CONTROL;
    }
    if hotkey.alt {
        m = m + MOD_ALT;
    }
    if hotkey.shift {
        m = m + MOD_SHIFT;
    }
    m + MOD_NOREPEAT
}

// ---------------------------------------------------------------------------
// Texts
// ---------------------------------------------------------------------------
/// Upper-case hexadecimal digit.
pub open spec fn hex_digit(d: nat) -> char {
    if d < 10 {
        ((d + 48) as u8) as char
    } else {
        ((d + 55) as u8) as char
    }
}

/// Upper-case hexadecimal rendering of `n` with at least `width` digits.
pub open spec fn hex_text(n: nat, width: nat) -> Seq<char>
    decreases n, width,
{
    if n < 16 && width <= 1 {
        seq![hex_digit(n)]
    } else {
        hex_text(n / 16, if width > 0 {
            (width - 1) as nat
        } else {
            0
        }).push(hex_digit(n % 16))
    }
}

fn hex_str(d: u16) -> (r: &'static str)
    requires
        d < 16,
    ensures
        r@ == seq![hex_digit(d as nat)],
{
    if d == 0 {
        proof {
            reveal_strlit("0");
        }
        "0"
    } else if d == 1 {
        proof {
            reveal_strlit("1");
        }
        "1"
    } else if d == 2 {
        proof {
            reveal_strlit("2");
        }
        "2"
    } else if d == 3 {
        proof {
            reveal_strlit("3");
        }
        "3"
    } else if d == 4 {
        proof {
            reveal_strlit("4");
        }
        "4"
    } else if d == 5 {
        proof {
            reveal_strlit("5");
        }
        "5"
    } else if d == 6 {
        proof {
            reveal_strlit("6");
        }
        "6"
    } else if d == 7 {
        proof {
            reveal_strlit("7");
        }
        "7"
    } else if d == 8 {
        proof {
            reveal_strlit("8");
        }
        "8"
    } else if d == 9 {
        proof {
            reveal_strlit("9");
        }
        "9"
    } else if d == 10 {
        proof {
            reveal_strlit("A");
        }
        "A"
    } else if d == 11 {
        proof {
            reveal_strlit("B");
        }
        "B"
    } else if d == 12 {
        proof {
            reveal_strlit("C");
        }
        "C"
    } else if d == 13 {
        proof {
            reveal_strlit("D");
        }
        "D"
    } else if d == 14 {
        proof {
            reveal_strlit("E");
        }
        "E"
    } else {
        proof {
            reveal_strlit("F");
        }
        "F"
    }
}

/// `VK 0x` and at least two upper-case hexadecimal digits.
pub fn format_vk(vk: u16) -> (r: String)
    ensures
        r@ == "VK 0x"@ + hex_text(vk as nat, 2),
{
    let mut digits: Vec<u16> = Vec::new();
    let mut n: u16 = vk;
    let mut width: u16 = 2;
    let ghost mut rest: Seq<char> = Seq::empty();
    loop
        invariant_except_break
            hex_text(vk as nat, 2) == hex_text(n as nat, width as nat) + rest,
        invariant
            width <= 2,
            rest.len() == digits@.len(),
            forall|j: int| 0 <= j < digits@.len() ==> #[trigger] digits@[j] < 16 && rest[rest.len() - 1 - j] == hex_digit(digits@[j] as nat),
        ensures
            hex_text(vk as nat, 2) == rest,
            rest.len() == digits@.len(),
            forall|j: int| 0 <= j < digits@.len() ==> #[trigger] digits@[j] < 16 && rest[rest.len() - 1 - j] == hex_digit(digits@[j] as nat),
        decreases n, width,
    {
        let d = n % 16;
        let ghost old_rest = rest;
        digits.push(d);
        proof {
            rest = seq![hex_digit(d as nat)] + rest;
            assert forall|j: int| 0 <= j < digits@.len() implies #[trigger] digits@[j] < 16 && rest[rest.len() - 1 - j] == hex_digit(digits@[j] as nat) by {
                if j < digits@.len() - 1 {
                    assert(rest[rest.len() - 1 - j] == old_rest[old_rest.len() - 1 - j]);
                }
            }
        }
        if n < 16 && width <= 1 {
            proof {
                assert(hex_text(n as nat, width as nat) == seq![hex_digit(n as nat)]);
                assert(d == n);
            }
            break;
        }
        proof {
            let w2: nat = if width > 0 { (width - 1) as nat } else { 0 };
            assert(hex_text(n as nat, width as nat) == hex_text((n / 16) as nat, w2).push(hex_digit((n % 16) as nat)));
            assert(hex_text((n / 16) as nat, w2).push(hex_digit((n % 16) as nat)) + old_rest =~= hex_text((n / 16) as nat, w2) + rest);
        }
        n = n / 16;
        width = if width > 0 {
            width - 1
        } else {
            0
        };
    }
    let mut r = String::from_str("VK 0x");
    let mut i: usize = digits.len();
    while i > 0
        invariant
            i <= digits@.len(),
            rest.len() == digits@.len(),
            forall|j: int| 0 <= j < digits@.len() ==> #[trigger] digits@[j] < 16 && rest[rest.len() - 1 - j] == hex_digit(digits@[j] as nat),
            r@ == "VK 0x"@ + rest.take(digits@.len() - i),
        decreases i,
    {
        i = i - 1;
        let d = digits[i];
        r.append(hex_str(d));
        proof {
            assert(rest[rest.len() - 1 - i] == hex_digit(d as nat));
            assert(rest.take(digits@.len() - i) =~= rest.take(digits@.len() - i - 1).push(hex_digit(d as nat)));
        }
    }
    assert(rest.take(digits@.len() as int) =~= rest);
    r
}

/// The pressed modifiers in the order Ctrl, Alt, Shift, then the key,
/// joined by ` + `.
pub open spec fn hotkey_text(ctrl: bool, alt: bool, shift: bool, vk: u16) -> Seq<char> {
    (if ctrl {
        "Ctrl + "@
    } else {
        Seq::empty()
    }) + (if alt {
        "Alt + "@
    } else {
        Seq::empty()
    }) + (if shift {
        "Shift + "@
    } else {
        Seq::empty()
    }) + "VK 0x"@ + hex_text(vk as nat, 2)
}

pub fn format_hotkey(ctrl: bool, alt: bool, shift: bool, vk: u16) -> (r: String)
    ensures
        r@ == hotkey_text(ctrl, alt, shift, vk),
{
    let mut r = String::new();
    if ctrl {
        r.append("Ctrl + ");
    }
    if alt {
        r.append("Alt + ");
    }
    if shift {
        r.append("Shift + ");
    }
    let key = format_vk(vk);
    r.append(key.as_str());
    assert(r@ =~= hotkey_text(ctrl, alt, shift, vk));
    r
}

// ---------------------------------------------------------------------------
// Tray texts
// ---------------------------------------------------------------------------
/// The tray's current-profile line: the label after `配置：`, or `-` for no label.
pub open spec fn tray_config_text(label: Seq<char>) -> Seq<char> {
    if label.len() == 0 {
        "配置："@ + "-"@
    } else {
        "配置："@ + label
    }
}

/// The tray menu line naming the current profile.
pub fn tray_current_config_menu_text(label: &str) -> (r: String)
    ensures
        r@ == tray_config_text(label@),
{
    let mut r = String::from_str("配置：");
    if label.is_empty() {
        r.append("-");
    } else {
        r.append(label);
    }
    r
}

/// The tray menu entry that opens or closes the floating control.
pub fn floating_control_menu_text(visible: bool) -> (r: &'static str)
    ensures
        r@ == (if visible {
            "关闭悬浮窗"@
        } else {
            "打开悬浮窗"@
        }),
{
    if visible {
        "关闭悬浮窗"
    } else {
        "打开悬浮窗"
    }
}

/// The label of the active profile: `全局配置` when none is active; a custom profile's
/// label; else the class's name, or `未知职业` for an unknown id.
pub open spec fn current_label(p: ProfilesConfigView) -> Seq<char> {
    match p.active_class_id {
        None => "全局配置"@,
        Some(id) => match keyed_get(p.custom_configs, id) {
            Some(c) => custom_label(c),
            None => match class_name_of(id) {
                Some(n) => n,
                None => "未知职业"@,
            },
        },
    }
}

/// The label of the active profile.
pub fn current_config_label(profiles: &ProfilesConfig) -> (r: String)
    requires
        profiles.wf(),
    ensures
        r@ == current_label(profiles@),
{
    let id = match &profiles.active_class_id {
        None => {
            return String::from_str("全局配置");
        },
        Some(id) => id,
    };
    if let Some(c) = profiles.custom_configs.get(id.as_str()) {
        return custom_config_label(c);
    }
    match class_name_by_id(id.as_str()) {
        Some(n) => String::from_str(n),
        None => String::from_str("未知职业"),
    }
}

} // verus!
