//! Default values, limits and the key tables the configuration rules use.

use vstd::prelude::*;

verus! {

pub const CONFIG_VERSION: u32 = 11;

pub const SETTINGS_CONFIG_VERSION: u32 = 1;

pub const PROFILES_CONFIG_VERSION: u32 = 1;

pub const DEFAULT_INTERVAL_MS: u16 = 20;

pub const DEFAULT_DETECTION_INTERVAL_MS: u64 = 200;

pub const DEFAULT_AUTO_RUN_PULSE_DELAY_MS: u64 = 25;

pub const MIN_AUTO_RUN_PULSE_DELAY_MS: u64 = 10;

pub const MAX_AUTO_RUN_PULSE_DELAY_MS: u64 = 200;

pub const MIN_INTERVAL_MS: u16 = 10;

pub const MAX_INTERVAL_MS: u16 = 1000;

pub const MIN_COMBO_HOLD_MS: u16 = 10;

pub const MAX_COMBO_HOLD_MS: u16 = 1000;

pub const MAX_COMBO_GAP_MS: u16 = 1000;

pub const MAX_COMBO_WAIT_MS: u16 = 5000;

pub const MAX_COMBO_COMMAND_DIRECTION_KEYS: usize = 4;

/// The class-detection sampling intervals the settings accept.
pub open spec fn detection_interval_option(value: u64) -> bool {
    value == 100 || value == 200 || value == 500 || value == 1000
}

/// Arrow keys: left, up, right, down.
pub open spec fn is_direction_vk(vk: u16) -> bool {
    vk == 0x25 || vk == 0x26 || vk == 0x27 || vk == 0x28
}

/// Keys that may end a command action: Z, X, C and space.
pub open spec fn is_finish_vk(vk: u16) -> bool {
    vk == 0x5A || vk == 0x58 || vk == 0x43 || vk == 0x20
}

pub fn direction_vk(vk: u16) -> (b: bool)
    ensures
        b == is_direction_vk(vk),
{
    vk == 0x25 || vk == 0x26 || vk == 0x27 || vk == 0x28
}

pub fn finish_vk(vk: u16) -> (b: bool)
    ensures
        b == is_finish_vk(vk),
{
    vk == 0x5A || vk == 0x58 || vk == 0x43 || vk == 0x20
}

/// The keys offered, in this order, when a new auto-fire key is added.
pub open spec fn autofire_key_candidates() -> Seq<u16> {
    seq![
        0x41u16, 0x42, 0x43, 0x44, 0x45, 0x46, 0x47, 0x48, 0x49, 0x4A, 0x4B, 0x4C, 0x4D, 0x4E,
        0x4F, 0x50, 0x51, 0x52, 0x53, 0x54, 0x55, 0x56, 0x57, 0x58, 0x59, 0x5A, 0x30, 0x31, 0x32,
        0x33, 0x34, 0x35, 0x36, 0x37, 0x38, 0x39, 0x09, 0x0D, 0x10, 0x11, 0x12, 0x13, 0x14, 0x1B,
        0x20, 0x25, 0x26, 0x27, 0x28, 0x2D, 0x2E, 0x60, 0x61, 0x62, 0x63, 0x64, 0x65, 0x66, 0x67,
        0x68, 0x69, 0x6A, 0x6B, 0x6D, 0x6E, 0x6F, 0x70, 0x71, 0x72, 0x73, 0x74, 0x75, 0x76, 0x77,
        0x78, 0x79, 0x7A, 0x7B, 0xA0, 0xA1, 0xA2, 0xA3, 0xA4, 0xA5, 0xBA, 0xBB, 0xBC, 0xBD, 0xBE,
        0xBF, 0xC0, 0xDB, 0xDC, 0xDD, 0xDE,
    ]
}

/// The auto-fire key candidates, in order.
pub fn autofire_key_candidate_vks() -> (v: Vec<u16>)
    ensures
        v@ == autofire_key_candidates(),
{
    let v: Vec<u16> = vec![
        0x41u16, 0x42, 0x43, 0x44, 0x45, 0x46, 0x47, 0x48, 0x49, 0x4A, 0x4B, 0x4C, 0x4D, 0x4E,
        0x4F, 0x50, 0x51, 0x52, 0x53, 0x54, 0x55, 0x56, 0x57, 0x58, 0x59, 0x5A, 0x30, 0x31, 0x32,
        0x33, 0x34, 0x35, 0x36, 0x37, 0x38, 0x39, 0x09, 0x0D, 0x10, 0x11, 0x12, 0x13, 0x14, 0x1B,
        0x20, 0x25, 0x26, 0x27, 0x28, 0x2D, 0x2E, 0x60, 0x61, 0x62, 0x63, 0x64, 0x65, 0x66, 0x67,
        0x68, 0x69, 0x6A, 0x6B, 0x6D, 0x6E, 0x6F, 0x70, 0x71, 0x72, 0x73, 0x74, 0x75, 0x76, 0x77,
        0x78, 0x79, 0x7A, 0x7B, 0xA0, 0xA1, 0xA2, 0xA3, 0xA4, 0xA5, 0xBA, 0xBB, 0xBC, 0xBD, 0xBE,
        0xBF, 0xC0, 0xDB, 0xDC, 0xDD, 0xDE,
    ];
    assert(v@ =~= autofire_key_candidates());
    v
}

pub fn default_combo_hold_ms() -> (v: u16)
    ensures
        v == 30,
{
    30
}

pub fn default_combo_gap_ms() -> (v: u16)
    ensures
        v == 20,
{
    20
}

pub fn default_combo_wait_after_ms() -> (v: u16)
    ensures
        v == 100,
{
    100
}

pub fn default_settings_config_version() -> (v: u32)
    ensures
        v == SETTINGS_CONFIG_VERSION,
{
    SETTINGS_CONFIG_VERSION
}

pub fn default_profiles_config_version() -> (v: u32)
    ensures
        v == PROFILES_CONFIG_VERSION,
{
    PROFILES_CONFIG_VERSION
}

pub fn default_detection_enabled() -> (v: bool)
    ensures
        !v,
{
    false
}

pub fn default_detection_interval_ms() -> (v: u64)
    ensures
        v == DEFAULT_DETECTION_INTERVAL_MS,
{
    DEFAULT_DETECTION_INTERVAL_MS
}

pub fn default_auto_run_left_vk() -> (v: u16)
    ensures
        v == 0x25,
{
    0x25
}

pub fn default_auto_run_right_vk() -> (v: u16)
    ensures
        v == 0x27,
{
    0x27
}

pub fn default_auto_run_pulse_delay_ms() -> (v: u64)
    ensures
        v == DEFAULT_AUTO_RUN_PULSE_DELAY_MS,
{
    DEFAULT_AUTO_RUN_PULSE_DELAY_MS
}

} // verus!
