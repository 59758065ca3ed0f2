use dnf_autofire::platform::{
    format_vk, hotkey_modifiers, is_injected_keyboard_flags, is_keydown_message, is_keyup_message,
    is_modifier_vk, is_target_window_class_for_build, is_target_window_class_name, text_contains,
    validate_hotkey, KeyboardHookEvent, WindowDetector, LLKHF_INJECTED, LLKHF_LOWER_IL_INJECTED,
    MOD_ALT, MOD_CONTROL, MOD_NOREPEAT, MOD_SHIFT, WM_KEYDOWN, WM_KEYUP, WM_SYSKEYDOWN, WM_SYSKEYUP,
};
use dnf_autofire::config::schema::Hotkey;
use dnf_autofire::error::AppErrorKind;
use dnf_autofire::vision::{
    detect_town_icon, grayscale_region, is_pure_cyan, pixel_offset, record_detection,
    DetectionRegion, DetectionRuntime, DetectionSignature,
};

#[test]
fn system_key_messages_count_as_key_events() {
    assert!(is_keydown_message(WM_SYSKEYDOWN));
    assert!(is_keyup_message(WM_SYSKEYUP));
}

#[test]
fn injected_flags_include_lower_integrity_injected() {
    assert!(is_injected_keyboard_flags(LLKHF_INJECTED));
    assert!(is_injected_keyboard_flags(LLKHF_LOWER_IL_INJECTED));
    assert!(!is_injected_keyboard_flags(0));
}

#[test]
fn plain_key_messages_and_other_messages() {
    assert!(is_keydown_message(WM_KEYDOWN));
    assert!(is_keyup_message(WM_KEYUP));
    assert!(!is_keydown_message(WM_KEYUP));
    assert!(!is_keyup_message(WM_KEYDOWN));
    assert!(!is_keydown_message(0x0200));
    let event = KeyboardHookEvent::from_parts(0x41, WM_SYSKEYDOWN, LLKHF_INJECTED);
    assert_eq!(event.vk, 0x41);
    assert!(event.is_keydown && !event.is_keyup && event.is_injected);
    let event = KeyboardHookEvent::from_parts(0x1_0041, WM_KEYUP, 0);
    assert!(!event.is_keydown && event.is_keyup && !event.is_injected);
}

#[test]
fn debug_notepad_class_counts_as_target_window() {
    assert!(is_target_window_class_name("Notepad"));
}

#[test]
fn target_window_classes_by_build() {
    assert!(is_target_window_class_for_build("地下城与勇士", false));
    assert!(is_target_window_class_for_build("x地下城与勇士y", false));
    assert!(!is_target_window_class_for_build("Notepad", false));
    assert!(is_target_window_class_for_build("Notepad", true));
    assert!(!is_target_window_class_for_build("", true));
    assert!(!is_target_window_class_name("Chrome_WidgetWin_1"));
    assert!(text_contains("abcabd", "abd"));
    assert!(!text_contains("ab", "abc"));
    assert!(text_contains("ab", ""));
}

struct FixedForeground(&'static str);

impl WindowDetector for FixedForeground {
    fn get_foreground_class_name(&self) -> String {
        self.0.to_string()
    }
}

#[test]
fn window_detector_decides_on_foreground_class() {
    assert!(FixedForeground("地下城与勇士").is_target_active());
    assert!(!FixedForeground("").is_target_active());
    assert!(!FixedForeground("Explorer").is_target_active());
}

#[test]
fn hotkey_must_be_a_combination() {
    let ok = Hotkey { ctrl: true, alt: false, shift: false, vk: 0x77 };
    assert!(validate_hotkey(&ok).is_ok());
    let bare = Hotkey { ctrl: false, alt: false, shift: false, vk: 0x77 };
    let err = validate_hotkey(&bare).unwrap_err();
    assert_eq!(err.kind, AppErrorKind::Hotkey);
    assert!(err.message.contains("必须是组合键"));
    let modifier_only = Hotkey { ctrl: true, alt: false, shift: false, vk: 0xA2 };
    assert!(validate_hotkey(&modifier_only).is_err());
    assert!(is_modifier_vk(0x10) && is_modifier_vk(0xA5) && !is_modifier_vk(0xA6));
}

#[test]
fn hotkey_modifier_flags() {
    let h = Hotkey { ctrl: true, alt: true, shift: false, vk: 0x77 };
    assert_eq!(hotkey_modifiers(&h), MOD_CONTROL | MOD_ALT | MOD_NOREPEAT);
    let h = Hotkey { ctrl: false, alt: false, shift: true, vk: 0x77 };
    assert_eq!(hotkey_modifiers(&h), MOD_SHIFT | MOD_NOREPEAT);
}

#[test]
fn format_vk_is_upper_hex_with_two_digits() {
    assert_eq!(format_vk(0x41), "VK 0x41");
    assert_eq!(format_vk(0x5), "VK 0x05");
    assert_eq!(format_vk(0xA2), "VK 0xA2");
    assert_eq!(format_vk(0x1FF), "VK 0x1FF");
}

#[test]
fn detect_town_icon_detects_cyan_pair() {
    let width = 8;
    let height = 8;
    let row_pitch = width * 4;
    let mut raw_data = vec![0u8; row_pitch * height];
    let offset = pixel_offset(&raw_data, row_pitch, 2, 2).unwrap();
    raw_data[offset] = 255;
    raw_data[offset + 1] = 255;
    raw_data[offset + 2] = 0;
    let right_offset = pixel_offset(&raw_data, row_pitch, 3, 2).unwrap();
    raw_data[right_offset] = 255;
    raw_data[right_offset + 1] = 255;
    raw_data[right_offset + 2] = 0;

    assert!(detect_town_icon(
        &raw_data,
        row_pitch,
        DetectionRegion {
            x: 0,
            y: 0,
            width,
            height,
        }
    ));
}

#[test]
fn detect_town_icon_returns_false_when_no_pair_exists() {
    let width = 8;
    let height = 8;
    let row_pitch = width * 4;
    let raw_data = vec![0u8; row_pitch * height];

    assert!(!detect_town_icon(
        &raw_data,
        row_pitch,
        DetectionRegion {
            x: 0,
            y: 0,
            width,
            height,
        }
    ));
}

#[test]
fn detect_town_icon_needs_a_horizontal_or_vertical_pair() {
    let row_pitch = 8 * 4;
    let region = DetectionRegion { x: 0, y: 0, width: 8, height: 8 };
    let mut raw_data = vec![0u8; row_pitch * 8];
    let set_cyan = |raw: &mut Vec<u8>, x: usize, y: usize| {
        let o = pixel_offset(raw, row_pitch, x, y).unwrap();
        raw[o] = 255;
        raw[o + 1] = 255;
    };
    set_cyan(&mut raw_data, 2, 2);
    assert!(!detect_town_icon(&raw_data, row_pitch, region));
    set_cyan(&mut raw_data, 3, 3);
    assert!(!detect_town_icon(&raw_data, row_pitch, region));
    set_cyan(&mut raw_data, 2, 3);
    assert!(detect_town_icon(&raw_data, row_pitch, region));
    // A pair whose second pixel lies outside the region does not count.
    let inner = DetectionRegion { x: 0, y: 0, width: 8, height: 3 };
    let mut raw_data = vec![0u8; row_pitch * 8];
    set_cyan(&mut raw_data, 5, 2);
    set_cyan(&mut raw_data, 5, 3);
    assert!(!detect_town_icon(&raw_data, row_pitch, inner));
    assert!(!detect_town_icon(&raw_data, row_pitch, DetectionRegion { x: 0, y: 0, width: 1, height: 8 }));
}

#[test]
fn pixel_offset_and_cyan() {
    let raw = vec![0u8; 16];
    assert_eq!(pixel_offset(&raw, 8, 1, 1), Some(12));
    assert_eq!(pixel_offset(&raw, 8, 2, 1), None);
    assert!(is_pure_cyan(&[255, 255, 0, 7]));
    assert!(!is_pure_cyan(&[255, 254, 0, 7]));
    assert!(!is_pure_cyan(&[255, 255]));
}

#[test]
fn grayscale_region_averages_channels() {
    let row_pitch = 2 * 4;
    let raw = vec![30u8, 60, 90, 0, 255, 255, 255, 0, 0, 0, 0, 0, 3, 3, 3, 0];
    let gray = grayscale_region(&raw, row_pitch, DetectionRegion { x: 0, y: 0, width: 2, height: 2 });
    assert_eq!(gray.len(), 4);
    assert_eq!(gray[1], 255);
    assert_eq!(gray[2], 0);
    assert_eq!(gray[3], 3);
}

#[test]
fn detection_signature_dedupes_identical_results() {
    let signature = DetectionSignature {
        class_index: Some(1),
        reason: "matched".to_string(),
    };
    let mut last_reported = Some(DetectionSignature {
        class_index: Some(1),
        reason: "matched".to_string(),
    });

    assert!(!record_detection(&mut last_reported, Some(1), "matched"));
    assert_eq!(last_reported, Some(signature));
    assert!(record_detection(&mut last_reported, None, "no match"));
    assert!(!record_detection(&mut last_reported, None, "no match"));
}

#[test]
fn detection_runtime_switch_and_interval() {
    let mut runtime = DetectionRuntime::new();
    assert!(!runtime.is_running());
    assert!(runtime.start(50));
    assert!(runtime.is_running());
    assert_eq!(runtime.sample_interval_ms(), 100);
    assert!(!runtime.start(500));
    runtime.set_interval_ms(500);
    assert_eq!(runtime.sample_interval_ms(), 500);
    runtime.stop();
    assert!(!runtime.is_running());
}

#[test]
fn hotkey_text_lists_modifiers_then_key() {
    assert_eq!(dnf_autofire::platform::format_hotkey(true, false, false, 0x77), "Ctrl + VK 0x77");
    assert_eq!(dnf_autofire::platform::format_hotkey(true, true, true, 0x41), "Ctrl + Alt + Shift + VK 0x41");
    assert_eq!(dnf_autofire::platform::format_hotkey(false, false, false, 0x5), "VK 0x05");
}
