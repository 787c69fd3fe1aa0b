//! Keyboard state kept from set-1 scancodes.
//!
//! Most keys send one byte; extended keys send 0xE0 and then a byte; the
//! pause key sends 0xE1 and then two bytes. A decoder turns the byte stream
//! into whole key codes, one byte at a time, and the code tables say which
//! key each code presses or releases.
use vstd::prelude::*;

verus! {

/// Pressed keys and lock states, apart from letters.
#[derive(Clone, Copy, Debug, PartialEq, Eq, Structural)]
pub struct KeyboardState {
    pub lctrl_pressed: bool,
    pub lshift_pressed: bool,
    pub lalt_pressed: bool,
    pub rctrl_pressed: bool,
    pub rshift_pressed: bool,
    pub ralt_pressed: bool,
    pub super_pressed: bool,
    pub caps_lock_active: bool,
    pub caps_lock_pressed: bool,
    pub scroll_lock_active: bool,
    pub scroll_lock_pressed: bool,
    pub num_lock_active: bool,
    pub num_lock_pressed: bool,
    pub tab_pressed: bool,
    pub esc_pressed: bool,
    pub f1_pressed: bool,
    pub f2_pressed: bool,
    pub f3_pressed: bool,
    pub f4_pressed: bool,
    pub f5_pressed: bool,
    pub f6_pressed: bool,
    pub f7_pressed: bool,
    pub f8_pressed: bool,
    pub f9_pressed: bool,
    pub f10_pressed: bool,
    pub f11_pressed: bool,
    pub f12_pressed: bool,
    pub arrow_up_pressed: bool,
    pub arrow_left_pressed: bool,
    pub arrow_right_pressed: bool,
    pub arrow_down_pressed: bool,
    pub insert_pressed: bool,
    pub delete_pressed: bool,
    pub backspace_pressed: bool,
    pub end_pressed: bool,
    pub d1_pressed: bool,
    pub d2_pressed: bool,
    pub d3_pressed: bool,
    pub d4_pressed: bool,
    pub d5_pressed: bool,
    pub d6_pressed: bool,
    pub d7_pressed: bool,
    pub d8_pressed: bool,
    pub d9_pressed: bool,
    pub d0_pressed: bool,
    pub pause_pressed: bool,
    pub prtsc_pressed: bool,
    pub home_pressed: bool,
    pub pgup_pressed: bool,
    pub pgdown_pressed: bool,
    pub context_menu_pressed: bool,
    pub eq_pressed: bool,
    pub hyphen_pressed: bool,
    pub open_sqbracket_pressed: bool,
    pub close_sqbracket_pressed: bool,
    pub enter_pressed: bool,
    pub semicolon_pressed: bool,
    pub single_quote_pressed: bool,
    pub back_tick_pressed: bool,
    pub backslash_pressed: bool,
    pub comma_pressed: bool,
    pub dot_pressed: bool,
    pub slash_pressed: bool,
    pub space_pressed: bool,
    pub numpad_asterisk_pressed: bool,
    pub numpad_7_pressed: bool,
    pub numpad_8_pressed: bool,
    pub numpad_9_pressed: bool,
    pub numpad_minus_pressed: bool,
    pub numpad_4_pressed: bool,
    pub numpad_5_pressed: bool,
    pub numpad_6_pressed: bool,
    pub numpad_plus_pressed: bool,
    pub numpad_1_pressed: bool,
    pub numpad_2_pressed: bool,
    pub numpad_3_pressed: bool,
    pub numpad_0_pressed: bool,
    pub numpad_dot_pressed: bool,
    pub numpad_enter_pressed: bool,
}

impl KeyboardState {
    /// Every key released, every lock off.
    pub fn released() -> (r: Self)
        ensures
            !r.lctrl_pressed,
            !r.lshift_pressed,
            !r.lalt_pressed,
            !r.rctrl_pressed,
            !r.rshift_pressed,
            !r.ralt_pressed,
            !r.super_pressed,
            !r.caps_lock_active,
            !r.caps_lock_pressed,
            !r.scroll_lock_active,
            !r.scroll_lock_pressed,
            !r.num_lock_active,
            !r.num_lock_pressed,
            !r.tab_pressed,
            !r.esc_pressed,
            !r.f1_pressed,
            !r.f2_pressed,
            !r.f3_pressed,
            !r.f4_pressed,
            !r.f5_pressed,
            !r.f6_pressed,
            !r.f7_pressed,
            !r.f8_pressed,
            !r.f9_pressed,
            !r.f10_pressed,
            !r.f11_pressed,
            !r.f12_pressed,
            !r.arrow_up_pressed,
            !r.arrow_left_pressed,
            !r.arrow_right_pressed,
            !r.arrow_down_pressed,
            !r.insert_pressed,
            !r.delete_pressed,
            !r.backspace_pressed,
            !r.end_pressed,
            !r.d1_pressed,
            !r.d2_pressed,
            !r.d3_pressed,
            !r.d4_pressed,
            !r.d5_pressed,
            !r.d6_pressed,
            !r.d7_pressed,
            !r.d8_pressed,
            !r.d9_pressed,
            !r.d0_pressed,
            !r.pause_pressed,
            !r.prtsc_pressed,
            !r.home_pressed,
            !r.pgup_pressed,
            !r.pgdown_pressed,
            !r.context_menu_pressed,
            !r.eq_pressed,
            !r.hyphen_pressed,
            !r.open_sqbracket_pressed,
            !r.close_sqbracket_pressed,
            !r.enter_pressed,
            !r.semicolon_pressed,
            !r.single_quote_pressed,
            !r.back_tick_pressed,
            !r.backslash_pressed,
            !r.comma_pressed,
            !r.dot_pressed,
            !r.slash_pressed,
            !r.space_pressed,
            !r.numpad_asterisk_pressed,
            !r.numpad_7_pressed,
            !r.numpad_8_pressed,
            !r.numpad_9_pressed,
            !r.numpad_minus_pressed,
            !r.numpad_4_pressed,
            !r.numpad_5_pressed,
            !r.numpad_6_pressed,
            !r.numpad_plus_pressed,
            !r.numpad_1_pressed,
            !r.numpad_2_pressed,
            !r.numpad_3_pressed,
            !r.numpad_0_pressed,
            !r.numpad_dot_pressed,
            !r.numpad_enter_pressed,
    {
        KeyboardState {
            lctrl_pressed: false,
            lshift_pressed: false,
            lalt_pressed: false,
            rctrl_pressed: false,
            rshift_pressed: false,
            ralt_pressed: false,
            super_pressed: false,
            caps_lock_active: false,
            caps_lock_pressed: false,
            scroll_lock_active: false,
            scroll_lock_pressed: false,
            num_lock_active: false,
            num_lock_pressed: false,
            tab_pressed: false,
            esc_pressed: false,
            f1_pressed: false,
            f2_pressed: false,
            f3_pressed: false,
            f4_pressed: false,
            f5_pressed: false,
            f6_pressed: false,
            f7_pressed: false,
            f8_pressed: false,
            f9_pressed: false,
            f10_pressed: false,
            f11_pressed: false,
            f12_pressed: false,
            arrow_up_pressed: false,
            arrow_left_pressed: false,
            arrow_right_pressed: false,
            arrow_down_pressed: false,
            insert_pressed: false,
            delete_pressed: false,
            backspace_pressed: false,
            end_pressed: false,
            d1_pressed: false,
            d2_pressed: false,
            d3_pressed: false,
            d4_pressed: false,
            d5_pressed: false,
            d6_pressed: false,
            d7_pressed: false,
            d8_pressed: false,
            d9_pressed: false,
            d0_pressed: false,
            pause_pressed: false,
            prtsc_pressed: false,
            home_pressed: false,
            pgup_pressed: false,
            pgdown_pressed: false,
            context_menu_pressed: false,
            eq_pressed: false,
            hyphen_pressed: false,
            open_sqbracket_pressed: false,
            close_sqbracket_pressed: false,
            enter_pressed: false,
            semicolon_pressed: false,
            single_quote_pressed: false,
            back_tick_pressed: false,
            backslash_pressed: false,
            comma_pressed: false,
            dot_pressed: false,
            slash_pressed: false,
            space_pressed: false,
            numpad_asterisk_pressed: false,
            numpad_7_pressed: false,
            numpad_8_pressed: false,
            numpad_9_pressed: false,
            numpad_minus_pressed: false,
            numpad_4_pressed: false,
            numpad_5_pressed: false,
            numpad_6_pressed: false,
            numpad_plus_pressed: false,
            numpad_1_pressed: false,
            numpad_2_pressed: false,
            numpad_3_pressed: false,
            numpad_0_pressed: false,
            numpad_dot_pressed: false,
            numpad_enter_pressed: false,
        }
    }
}

/// Pressed letter keys of an English QWERTY layout.
#[derive(Clone, Copy, Debug, PartialEq, Eq, Structural)]
pub struct EnglishQwertySet {
    pub q_pressed: bool,
    pub w_pressed: bool,
    pub e_pressed: bool,
    pub r_pressed: bool,
    pub t_pressed: bool,
    pub y_pressed: bool,
    pub u_pressed: bool,
    pub i_pressed: bool,
    pub o_pressed: bool,
    pub p_pressed: bool,
    pub a_pressed: bool,
    pub s_pressed: bool,
    pub d_pressed: bool,
    pub f_pressed: bool,
    pub g_pressed: bool,
    pub h_pressed: bool,
    pub j_pressed: bool,
    pub k_pressed: bool,
    pub l_pressed: bool,
    pub z_pressed: bool,
    pub x_pressed: bool,
    pub c_pressed: bool,
    pub v_pressed: bool,
    pub b_pressed: bool,
    pub n_pressed: bool,
    pub m_pressed: bool,
}

impl EnglishQwertySet {
    /// Every key released, every lock off.
    pub fn released() -> (r: Self)
        ensures
            !r.q_pressed,
            !r.w_pressed,
            !r.e_pressed,
            !r.r_pressed,
            !r.t_pressed,
            !r.y_pressed,
            !r.u_pressed,
            !r.i_pressed,
            !r.o_pressed,
            !r.p_pressed,
            !r.a_pressed,
            !r.s_pressed,
            !r.d_pressed,
            !r.f_pressed,
            !r.g_pressed,
            !r.h_pressed,
            !r.j_pressed,
            !r.k_pressed,
            !r.l_pressed,
            !r.z_pressed,
            !r.x_pressed,
            !r.c_pressed,
            !r.v_pressed,
            !r.b_pressed,
            !r.n_pressed,
            !r.m_pressed,
    {
        EnglishQwertySet {
            q_pressed: false,
            w_pressed: false,
            e_pressed: false,
            r_pressed: false,
            t_pressed: false,
            y_pressed: false,
            u_pressed: false,
            i_pressed: false,
            o_pressed: false,
            p_pressed: false,
            a_pressed: false,
            s_pressed: false,
            d_pressed: false,
            f_pressed: false,
            g_pressed: false,
            h_pressed: false,
            j_pressed: false,
            k_pressed: false,
            l_pressed: false,
            z_pressed: false,
            x_pressed: false,
            c_pressed: false,
            v_pressed: false,
            b_pressed: false,
            n_pressed: false,
            m_pressed: false,
        }
    }
}

/// A complete key code.
#[derive(Clone, Copy, Debug, PartialEq, Eq, Structural)]
pub enum KeyCode {
    /// A one-byte code.
    Plain(u8),
    /// The byte that followed an 0xE0 prefix.
    Extended(u8),
    /// The two bytes that followed an 0xE1 prefix, first byte high.
    Pause(u16),
}

/// Where the decoder is within a multi-byte code.
#[derive(Clone, Copy, Debug, PartialEq, Eq, Structural)]
pub enum DecoderState {
    /// At the start of a code.
    Idle,
    /// After 0xE0.
    AfterE0,
    /// After 0xE1.
    AfterE1,
    /// After 0xE1 and one more byte.
    AfterE1Byte(u8),
}

/// Next decoder state and the code completed by `byte`, if any.
pub open spec fn decode_step(state: DecoderState, byte: u8) -> (DecoderState, Option<KeyCode>) {
    match state {
        DecoderState::Idle => if byte == 0xe0 {
            (DecoderState::AfterE0, None)
        } else if byte == 0xe1 {
            (DecoderState::AfterE1, None)
        } else {
            (DecoderState::Idle, Some(KeyCode::Plain(byte)))
        },
        DecoderState::AfterE0 => (DecoderState::Idle, Some(KeyCode::Extended(byte))),
        DecoderState::AfterE1 => (DecoderState::AfterE1Byte(byte), None),
        DecoderState::AfterE1Byte(high) => (
            DecoderState::Idle,
            Some(KeyCode::Pause((high as u16 * 256 + byte as u16) as u16)),
        ),
    }
}

/// Assembles key codes from scancode bytes.
pub struct ScancodeDecoder {
    pub state: DecoderState,
}

impl ScancodeDecoder {
    /// A decoder at the start of a code.
    pub fn new() -> (r: Self)
        ensures
            r.state == DecoderState::Idle,
    {
        ScancodeDecoder { state: DecoderState::Idle }
    }

    /// Feeds one byte; returns the code it completes, if any.
    pub fn feed(&mut self, byte: u8) -> (r: Option<KeyCode>)
        ensures
            (final(self).state, r) == decode_step(old(self).state, byte),
    {
        match self.state {
            DecoderState::Idle => {
                if byte == 0xe0 {
                    self.state = DecoderState::AfterE0;
                    None
                } else if byte == 0xe1 {
                    self.state = DecoderState::AfterE1;
                    None
                } else {
                    Some(KeyCode::Plain(byte))
                }
            },
            DecoderState::AfterE0 => {
                self.state = DecoderState::Idle;
                Some(KeyCode::Extended(byte))
            },
            DecoderState::AfterE1 => {
                self.state = DecoderState::AfterE1Byte(byte);
                None
            },
            DecoderState::AfterE1Byte(high) => {
                self.state = DecoderState::Idle;
                Some(KeyCode::Pause((high as u16) * 256 + byte as u16))
            },
        }
    }
}

/// The key state after a one-byte code (set 1: bit 7 clear presses a key,
/// set releases it); `None` for a code no key sends.
pub open spec fn plain_effect(kbd: KeyboardState, eng: EnglishQwertySet, code: u8) -> Option<
    (KeyboardState, EnglishQwertySet),
> {
    match code {
        0x01 => Some((KeyboardState { esc_pressed: true, ..kbd }, eng)),
        0x02 => Some((KeyboardState { d1_pressed: true, ..kbd }, eng)),
        0x03 => Some((KeyboardState { d2_pressed: true, ..kbd }, eng)),
        0x04 => Some((KeyboardState { d3_pressed: true, ..kbd }, eng)),
        0x05 => Some((KeyboardState { d4_pressed: true, ..kbd }, eng)),
        0x06 => Some((KeyboardState { d5_pressed: true, ..kbd }, eng)),
        0x07 => Some((KeyboardState { d6_pressed: true, ..kbd }, eng)),
        0x08 => Some((KeyboardState { d7_pressed: true, ..kbd }, eng)),
        0x09 => Some((KeyboardState { d8_pressed: true, ..kbd }, eng)),
        0x0a => Some((KeyboardState { d9_pressed: true, ..kbd }, eng)),
        0x0b => Some((KeyboardState { d0_pressed: true, ..kbd }, eng)),
        0x0c => Some((KeyboardState { hyphen_pressed: true, ..kbd }, eng)),
        0x0d => Some((KeyboardState { eq_pressed: true, ..kbd }, eng)),
        0x0e => Some((KeyboardState { backspace_pressed: true, ..kbd }, eng)),
        0x0f => Some((KeyboardState { tab_pressed: true, ..kbd }, eng)),
        0x10 => Some((kbd, EnglishQwertySet { q_pressed: true, ..eng })),
        0x11 => Some((kbd, EnglishQwertySet { w_pressed: true, ..eng })),
        0x12 => Some((kbd, EnglishQwertySet { e_pressed: true, ..eng })),
        0x13 => Some((kbd, EnglishQwertySet { r_pressed: true, ..eng })),
        0x14 => Some((kbd, EnglishQwertySet { t_pressed: true, ..eng })),
        0x15 => Some((kbd, EnglishQwertySet { y_pressed: true, ..eng })),
        0x16 => Some((kbd, EnglishQwertySet { u_pressed: true, ..eng })),
        0x17 => Some((kbd, EnglishQwertySet { i_pressed: true, ..eng })),
        0x18 => Some((kbd, EnglishQwertySet { o_pressed: true, ..eng })),
        0x19 => Some((kbd, EnglishQwertySet { p_pressed: true, ..eng })),
        0x1a => Some((KeyboardState { open_sqbracket_pressed: true, ..kbd }, eng)),
        0x1b => Some((KeyboardState { close_sqbracket_pressed: true, ..kbd }, eng)),
        0x1c => Some((KeyboardState { enter_pressed: true, ..kbd }, eng)),
        0x1d => Some((KeyboardState { lctrl_pressed: true, ..kbd }, eng)),
        0x1e => Some((kbd, EnglishQwertySet { a_pressed: true, ..eng })),
        0x1f => Some((kbd, EnglishQwertySet { s_pressed: true, ..eng })),
        0x20 => Some((kbd, EnglishQwertySet { d_pressed: true, ..eng })),
        0x21 => Some((kbd, EnglishQwertySet { f_pressed: true, ..eng })),
        0x22 => Some((kbd, EnglishQwertySet { g_pressed: true, ..eng })),
        0x23 => Some((kbd, EnglishQwertySet { h_pressed: true, ..eng })),
        0x24 => Some((kbd, EnglishQwertySet { j_pressed: true, ..eng })),
        0x25 => Some((kbd, EnglishQwertySet { k_pressed: true, ..eng })),
        0x26 => Some((kbd, EnglishQwertySet { l_pressed: true, ..eng })),
        0x27 => Some((KeyboardState { semicolon_pressed: true, ..kbd }, eng)),
        0x28 => Some((KeyboardState { single_quote_pressed: true, ..kbd }, eng)),
        0x29 => Some((KeyboardState { back_tick_pressed: true, ..kbd }, eng)),
        0x2a => Some((KeyboardState { lshift_pressed: true, ..kbd }, eng)),
        0x2b => Some((KeyboardState { backslash_pressed: true, ..kbd }, eng)),
        0x2c => Some((kbd, EnglishQwertySet { z_pressed: true, ..eng })),
        0x2d => Some((kbd, EnglishQwertySet { x_pressed: true, ..eng })),
        0x2e => Some((kbd, EnglishQwertySet { c_pressed: true, ..eng })),
        0x2f => Some((kbd, EnglishQwertySet { v_pressed: true, ..eng })),
        0x30 => Some((kbd, EnglishQwertySet { b_pressed: true, ..eng })),
        0x31 => Some((kbd, EnglishQwertySet { n_pressed: true, ..eng })),
        0x32 => Some((kbd, EnglishQwertySet { m_pressed: true, ..eng })),
        0x33 => Some((KeyboardState { comma_pressed: true, ..kbd }, eng)),
        0x34 => Some((KeyboardState { dot_pressed: true, ..kbd }, eng)),
        0x35 => Some((KeyboardState { slash_pressed: true, ..kbd }, eng)),
        0x36 => Some((KeyboardState { rshift_pressed: true, ..kbd }, eng)),
        0x37 => Some((KeyboardState { numpad_asterisk_pressed: true, ..kbd }, eng)),
        0x38 => Some((KeyboardState { lalt_pressed: true, ..kbd }, eng)),
        0x39 => Some((KeyboardState { space_pressed: true, ..kbd }, eng)),
        0x3a => Some(
            (
                KeyboardState { caps_lock_pressed: true, caps_lock_active: !kbd.caps_lock_active, ..kbd },
                eng,
            ),
        ),
        0x45 => Some(
            (
                KeyboardState { num_lock_pressed: true, num_lock_active: !kbd.num_lock_active, ..kbd },
                eng,
            ),
        ),
        0x46 => Some(
            (
                KeyboardState { scroll_lock_pressed: true, scroll_lock_active: !kbd.scroll_lock_active, ..kbd },
                eng,
            ),
        ),
        0x3b => Some((KeyboardState { f1_pressed: true, ..kbd }, eng)),
        0x3c => Some((KeyboardState { f2_pressed: true, ..kbd }, eng)),
        0x3d => Some((KeyboardState { f3_pressed: true, ..kbd }, eng)),
        0x3e => Some((KeyboardState { f4_pressed: true, ..kbd }, eng)),
        0x3f => Some((KeyboardState { f5_pressed: true, ..kbd }, eng)),
        0x40 => Some((KeyboardState { f6_pressed: true, ..kbd }, eng)),
        0x41 => Some((KeyboardState { f7_pressed: true, ..kbd }, eng)),
        0x42 => Some((KeyboardState { f8_pressed: true, ..kbd }, eng)),
        0x43 => Some((KeyboardState { f9_pressed: true, ..kbd }, eng)),
        0x44 => Some((KeyboardState { f10_pressed: true, ..kbd }, eng)),
        0x47 => Some((KeyboardState { numpad_7_pressed: true, ..kbd }, eng)),
        0x48 => Some((KeyboardState { numpad_8_pressed: true, ..kbd }, eng)),
        0x49 => Some((KeyboardState { numpad_9_pressed: true, ..kbd }, eng)),
        0x4a => Some((KeyboardState { numpad_minus_pressed: true, ..kbd }, eng)),
        0x4b => Some((KeyboardState { numpad_4_pressed: true, ..kbd }, eng)),
        0x4c => Some((KeyboardState { numpad_5_pressed: true, ..kbd }, eng)),
        0x4d => Some((KeyboardState { numpad_6_pressed: true, ..kbd }, eng)),
        0x4e => Some((KeyboardState { numpad_plus_pressed: true, ..kbd }, eng)),
        0x4f => Some((KeyboardState { numpad_1_pressed: true, ..kbd }, eng)),
        0x50 => Some((KeyboardState { numpad_2_pressed: true, ..kbd }, eng)),
        0x51 => Some((KeyboardState { numpad_3_pressed: true, ..kbd }, eng)),
        0x52 => Some((KeyboardState { numpad_0_pressed: true, ..kbd }, eng)),
        0x53 => Some((KeyboardState { numpad_dot_pressed: true, ..kbd }, eng)),
        0x57 => Some((KeyboardState { f11_pressed: true, ..kbd }, eng)),
        0x58 => Some((KeyboardState { f12_pressed: true, ..kbd }, eng)),
        0x5d => Some((KeyboardState { context_menu_pressed: true, ..kbd }, eng)),
        0x81 => Some((KeyboardState { esc_pressed: false, ..kbd }, eng)),
        0x82 => Some((KeyboardState { d1_pressed: false, ..kbd }, eng)),
        0x83 => Some((KeyboardState { d2_pressed: false, ..kbd }, eng)),
        0x84 => Some((KeyboardState { d3_pressed: false, ..kbd }, eng)),
        0x85 => Some((KeyboardState { d4_pressed: false, ..kbd }, eng)),
        0x86 => Some((KeyboardState { d5_pressed: false, ..kbd }, eng)),
        0x87 => Some((KeyboardState { d6_pressed: false, ..kbd }, eng)),
        0x88 => Some((KeyboardState { d7_pressed: false, ..kbd }, eng)),
        0x89 => Some((KeyboardState { d8_pressed: false, ..kbd }, eng)),
        0x8a => Some((KeyboardState { d9_pressed: false, ..kbd }, eng)),
        0x8b => Some((KeyboardState { d0_pressed: false, ..kbd }, eng)),
        0x8c => Some((KeyboardState { hyphen_pressed: false, ..kbd }, eng)),
        0x8d => Some((KeyboardState { eq_pressed: false, ..kbd }, eng)),
        0x8e => Some((KeyboardState { backspace_pressed: false, ..kbd }, eng)),
        0x8f => Some((KeyboardState { tab_pressed: false, ..kbd }, eng)),
        0x90 => Some((kbd, EnglishQwertySet { q_pressed: false, ..eng })),
        0x91 => Some((kbd, EnglishQwertySet { w_pressed: false, ..eng })),
        0x92 => Some((kbd, EnglishQwertySet { e_pressed: false, ..eng })),
        0x93 => Some((kbd, EnglishQwertySet { r_pressed: false, ..eng })),
        0x94 => Some((kbd, EnglishQwertySet { t_pressed: false, ..eng })),
        0x95 => Some((kbd, EnglishQwertySet { y_pressed: false, ..eng })),
        0x96 => Some((kbd, EnglishQwertySet { u_pressed: false, ..eng })),
        0x97 => Some((kbd, EnglishQwertySet { i_pressed: false, ..eng })),
        0x98 => Some((kbd, EnglishQwertySet { o_pressed: false, ..eng })),
        0x99 => Some((kbd, EnglishQwertySet { p_pressed: false, ..eng })),
        0x9a => Some((KeyboardState { open_sqbracket_pressed: false, ..kbd }, eng)),
        0x9b => Some((KeyboardState { close_sqbracket_pressed: false, ..kbd }, eng)),
        0x9c => Some((KeyboardState { enter_pressed: false, ..kbd }, eng)),
        0x9d => Some((KeyboardState { lctrl_pressed: false, ..kbd }, eng)),
        0x9e => Some((kbd, EnglishQwertySet { a_pressed: false, ..eng })),
        0x9f => Some((kbd, EnglishQwertySet { s_pressed: false, ..eng })),
        0xa0 => Some((kbd, EnglishQwertySet { d_pressed: false, ..eng })),
        0xa1 => Some((kbd, EnglishQwertySet { f_pressed: false, ..eng })),
        0xa2 => Some((kbd, EnglishQwertySet { g_pressed: false, ..eng })),
        0xa3 => Some((kbd, EnglishQwertySet { h_pressed: false, ..eng })),
        0xa4 => Some((kbd, EnglishQwertySet { j_pressed: false, ..eng })),
        0xa5 => Some((kbd, EnglishQwertySet { k_pressed: false, ..eng })),
        0xa6 => Some((kbd, EnglishQwertySet { l_pressed: false, ..eng })),
        0xa7 => Some((KeyboardState { semicolon_pressed: false, ..kbd }, eng)),
        0xa8 => Some((KeyboardState { single_quote_pressed: false, ..kbd }, eng)),
        0xa9 => Some((KeyboardState { back_tick_pressed: false, ..kbd }, eng)),
        0xaa => Some((KeyboardState { lshift_pressed: false, ..kbd }, eng)),
        0xab => Some((KeyboardState { backslash_pressed: false, ..kbd }, eng)),
        0xac => Some((kbd, EnglishQwertySet { z_pressed: false, ..eng })),
        0xad => Some((kbd, EnglishQwertySet { x_pressed: false, ..eng })),
        0xae => Some((kbd, EnglishQwertySet { c_pressed: false, ..eng })),
        0xaf => Some((kbd, EnglishQwertySet { v_pressed: false, ..eng })),
        0xb0 => Some((kbd, EnglishQwertySet { b_pressed: false, ..eng })),
        0xb1 => Some((kbd, EnglishQwertySet { n_pressed: false, ..eng })),
        0xb2 => Some((kbd, EnglishQwertySet { m_pressed: false, ..eng })),
        0xb3 => Some((KeyboardState { comma_pressed: false, ..kbd }, eng)),
        0xb4 => Some((KeyboardState { dot_pressed: false, ..kbd }, eng)),
        0xb5 => Some((KeyboardState { slash_pressed: false, ..kbd }, eng)),
        0xb6 => Some((KeyboardState { rshift_pressed: false, ..kbd }, eng)),
        0xb7 => Some((KeyboardState { numpad_asterisk_pressed: false, ..kbd }, eng)),
        0xb8 => Some((KeyboardState { lalt_pressed: false, ..kbd }, eng)),
        0xb9 => Some((KeyboardState { space_pressed: false, ..kbd }, eng)),
        0xba => Some((KeyboardState { caps_lock_pressed: false, ..kbd }, eng)),
        0xbb => Some((KeyboardState { f1_pressed: false, ..kbd }, eng)),
        0xbc => Some((KeyboardState { f2_pressed: false, ..kbd }, eng)),
        0xbd => Some((KeyboardState { f3_pressed: false, ..kbd }, eng)),
        0xbe => Some((KeyboardState { f4_pressed: false, ..kbd }, eng)),
        0xbf => Some((KeyboardState { f5_pressed: false, ..kbd }, eng)),
        0xc0 => Some((KeyboardState { f6_pressed: false, ..kbd }, eng)),
        0xc1 => Some((KeyboardState { f7_pressed: false, ..kbd }, eng)),
        0xc2 => Some((KeyboardState { f8_pressed: false, ..kbd }, eng)),
        0xc3 => Some((KeyboardState { f9_pressed: false, ..kbd }, eng)),
        0xc4 => Some((KeyboardState { f10_pressed: false, ..kbd }, eng)),
        0xc5 => Some((KeyboardState { num_lock_pressed: false, ..kbd }, eng)),
        0xc6 => Some((KeyboardState { scroll_lock_pressed: false, ..kbd }, eng)),
        0xc7 => Some((KeyboardState { numpad_7_pressed: false, ..kbd }, eng)),
        0xc8 => Some((KeyboardState { numpad_8_pressed: false, ..kbd }, eng)),
        0xc9 => Some((KeyboardState { numpad_9_pressed: false, ..kbd }, eng)),
        0xca => Some((KeyboardState { numpad_minus_pressed: false, ..kbd }, eng)),
        0xcb => Some((KeyboardState { numpad_4_pressed: false, ..kbd }, eng)),
        0xcc => Some((KeyboardState { numpad_5_pressed: false, ..kbd }, eng)),
        0xcd => Some((KeyboardState { numpad_6_pressed: false, ..kbd }, eng)),
        0xce => Some((KeyboardState { numpad_plus_pressed: false, ..kbd }, eng)),
        0xcf => Some((KeyboardState { numpad_1_pressed: false, ..kbd }, eng)),
        0xd0 => Some((KeyboardState { numpad_2_pressed: false, ..kbd }, eng)),
        0xd1 => Some((KeyboardState { numpad_3_pressed: false, ..kbd }, eng)),
        0xd2 => Some((KeyboardState { numpad_0_pressed: false, ..kbd }, eng)),
        0xd3 => Some((KeyboardState { numpad_dot_pressed: false, ..kbd }, eng)),
        0xd7 => Some((KeyboardState { f11_pressed: false, ..kbd }, eng)),
        0xd8 => Some((KeyboardState { f12_pressed: false, ..kbd }, eng)),
        0xdd => Some((KeyboardState { context_menu_pressed: false, ..kbd }, eng)),
        _ => None,
    }
}

/// The key state after the code that followed an 0xE0 prefix.
pub open spec fn extended_effect(kbd: KeyboardState, code: u8) -> Option<KeyboardState> {
    match code {
        0x1c => Some(KeyboardState { numpad_enter_pressed: true, ..kbd }),
        0x1d => Some(KeyboardState { rctrl_pressed: true, ..kbd }),
        0x2a => Some(KeyboardState { prtsc_pressed: true, ..kbd }),
        0x37 => Some(KeyboardState { prtsc_pressed: true, ..kbd }),
        0x38 => Some(KeyboardState { ralt_pressed: true, ..kbd }),
        0x47 => Some(KeyboardState { home_pressed: true, ..kbd }),
        0x48 => Some(KeyboardState { arrow_up_pressed: true, ..kbd }),
        0x49 => Some(KeyboardState { pgup_pressed: true, ..kbd }),
        0x4b => Some(KeyboardState { arrow_left_pressed: true, ..kbd }),
        0x4d => Some(KeyboardState { arrow_right_pressed: true, ..kbd }),
        0x4f => Some(KeyboardState { end_pressed: true, ..kbd }),
        0x50 => Some(KeyboardState { arrow_down_pressed: true, ..kbd }),
        0x51 => Some(KeyboardState { pgdown_pressed: true, ..kbd }),
        0x52 => Some(KeyboardState { insert_pressed: true, ..kbd }),
        0x53 => Some(KeyboardState { delete_pressed: true, ..kbd }),
        0x5b => Some(KeyboardState { super_pressed: true, ..kbd }),
        0x5d => Some(KeyboardState { context_menu_pressed: true, ..kbd }),
        0x9c => Some(KeyboardState { numpad_enter_pressed: false, ..kbd }),
        0x9d => Some(KeyboardState { rctrl_pressed: false, ..kbd }),
        0xaa => Some(KeyboardState { prtsc_pressed: false, ..kbd }),
        0xb7 => Some(KeyboardState { prtsc_pressed: false, ..kbd }),
        0xb8 => Some(KeyboardState { ralt_pressed: false, ..kbd }),
        0xc7 => Some(KeyboardState { home_pressed: false, ..kbd }),
        0xc8 => Some(KeyboardState { arrow_up_pressed: false, ..kbd }),
        0xc9 => Some(KeyboardState { pgup_pressed: false, ..kbd }),
        0xcb => Some(KeyboardState { arrow_left_pressed: false, ..kbd }),
        0xcd => Some(KeyboardState { arrow_right_pressed: false, ..kbd }),
        0xcf => Some(KeyboardState { end_pressed: false, ..kbd }),
        0xd0 => Some(KeyboardState { arrow_down_pressed: false, ..kbd }),
        0xd1 => Some(KeyboardState { pgdown_pressed: false, ..kbd }),
        0xd2 => Some(KeyboardState { insert_pressed: false, ..kbd }),
        0xd3 => Some(KeyboardState { delete_pressed: false, ..kbd }),
        0xdb => Some(KeyboardState { super_pressed: false, ..kbd }),
        0xdd => Some(KeyboardState { context_menu_pressed: false, ..kbd }),
        _ => None,
    }
}

/// The key state after the two bytes that followed an 0xE1 prefix.
pub open spec fn pause_effect(kbd: KeyboardState, code: u16) -> Option<KeyboardState> {
    if code == 0x1d45 {
        Some(KeyboardState { pause_pressed: true, ..kbd })
    } else if code == 0x9dc5 {
        Some(KeyboardState { pause_pressed: false, ..kbd })
    } else {
        None
    }
}

/// The key state after a whole key code; `None` for a code no key sends.
pub open spec fn key_effect(kbd: KeyboardState, eng: EnglishQwertySet, code: KeyCode) -> Option<
    (KeyboardState, EnglishQwertySet),
> {
    match code {
        KeyCode::Plain(c) => plain_effect(kbd, eng, c),
        KeyCode::Extended(c) => match extended_effect(kbd, c) {
            Some(k) => Some((k, eng)),
            None => None,
        },
        KeyCode::Pause(c) => match pause_effect(kbd, c) {
            Some(k) => Some((k, eng)),
            None => None,
        },
    }
}

#[verifier::spinoff_prover]
#[verifier::rlimit(100)]
fn plain_update(kbd: KeyboardState, eng: EnglishQwertySet, code: u8) -> (r: Option<
    (KeyboardState, EnglishQwertySet),
>)
    ensures
        r == plain_effect(kbd, eng, code),
{
    match code {
        0x01 => Some((KeyboardState { esc_pressed: true, ..kbd }, eng)),
        0x02 => Some((KeyboardState { d1_pressed: true, ..kbd }, eng)),
        0x03 => Some((KeyboardState { d2_pressed: true, ..kbd }, eng)),
        0x04 => Some((KeyboardState { d3_pressed: true, ..kbd }, eng)),
        0x05 => Some((KeyboardState { d4_pressed: true, ..kbd }, eng)),
        0x06 => Some((KeyboardState { d5_pressed: true, ..kbd }, eng)),
        0x07 => Some((KeyboardState { d6_pressed: true, ..kbd }, eng)),
        0x08 => Some((KeyboardState { d7_pressed: true, ..kbd }, eng)),
        0x09 => Some((KeyboardState { d8_pressed: true, ..kbd }, eng)),
        0x0a => Some((KeyboardState { d9_pressed: true, ..kbd }, eng)),
        0x0b => Some((KeyboardState { d0_pressed: true, ..kbd }, eng)),
        0x0c => Some((KeyboardState { hyphen_pressed: true, ..kbd }, eng)),
        0x0d => Some((KeyboardState { eq_pressed: true, ..kbd }, eng)),
        0x0e => Some((KeyboardState { backspace_pressed: true, ..kbd }, eng)),
        0x0f => Some((KeyboardState { tab_pressed: true, ..kbd }, eng)),
        0x10 => Some((kbd, EnglishQwertySet { q_pressed: true, ..eng })),
        0x11 => Some((kbd, EnglishQwertySet { w_pressed: true, ..eng })),
        0x12 => Some((kbd, EnglishQwertySet { e_pressed: true, ..eng })),
        0x13 => Some((kbd, EnglishQwertySet { r_pressed: true, ..eng })),
        0x14 => Some((kbd, EnglishQwertySet { t_pressed: true, ..eng })),
        0x15 => Some((kbd, EnglishQwertySet { y_pressed: true, ..eng })),
        0x16 => Some((kbd, EnglishQwertySet { u_pressed: true, ..eng })),
        0x17 => Some((kbd, EnglishQwertySet { i_pressed: true, ..eng })),
        0x18 => Some((kbd, EnglishQwertySet { o_pressed: true, ..eng })),
        0x19 => Some((kbd, EnglishQwertySet { p_pressed: true, ..eng })),
        0x1a => Some((KeyboardState { open_sqbracket_pressed: true, ..kbd }, eng)),
        0x1b => Some((KeyboardState { close_sqbracket_pressed: true, ..kbd }, eng)),
        0x1c => Some((KeyboardState { enter_pressed: true, ..kbd }, eng)),
        0x1d => Some((KeyboardState { lctrl_pressed: true, ..kbd }, eng)),
        0x1e => Some((kbd, EnglishQwertySet { a_pressed: true, ..eng })),
        0x1f => Some((kbd, EnglishQwertySet { s_pressed: true, ..eng })),
        0x20 => Some((kbd, EnglishQwertySet { d_pressed: true, ..eng })),
        0x21 => Some((kbd, EnglishQwertySet { f_pressed: true, ..eng })),
        0x22 => Some((kbd, EnglishQwertySet { g_pressed: true, ..eng })),
        0x23 => Some((kbd, EnglishQwertySet { h_pressed: true, ..eng })),
        0x24 => Some((kbd, EnglishQwertySet { j_pressed: true, ..eng })),
        0x25 => Some((kbd, EnglishQwertySet { k_pressed: true, ..eng })),
        0x26 => Some((kbd, EnglishQwertySet { l_pressed: true, ..eng })),
        0x27 => Some((KeyboardState { semicolon_pressed: true, ..kbd }, eng)),
        0x28 => Some((KeyboardState { single_quote_pressed: true, ..kbd }, eng)),
        0x29 => Some((KeyboardState { back_tick_pressed: true, ..kbd }, eng)),
        0x2a => Some((KeyboardState { lshift_pressed: true, ..kbd }, eng)),
        0x2b => Some((KeyboardState { backslash_pressed: true, ..kbd }, eng)),
        0x2c => Some((kbd, EnglishQwertySet { z_pressed: true, ..eng })),
        0x2d => Some((kbd, EnglishQwertySet { x_pressed: true, ..eng })),
        0x2e => Some((kbd, EnglishQwertySet { c_pressed: true, ..eng })),
        0x2f => Some((kbd, EnglishQwertySet { v_pressed: true, ..eng })),
        0x30 => Some((kbd, EnglishQwertySet { b_pressed: true, ..eng })),
        0x31 => Some((kbd, EnglishQwertySet { n_pressed: true, ..eng })),
        0x32 => Some((kbd, EnglishQwertySet { m_pressed: true, ..eng })),
        0x33 => Some((KeyboardState { comma_pressed: true, ..kbd }, eng)),
        0x34 => Some((KeyboardState { dot_pressed: true, ..kbd }, eng)),
        0x35 => Some((KeyboardState { slash_pressed: true, ..kbd }, eng)),
        0x36 => Some((KeyboardState { rshift_pressed: true, ..kbd }, eng)),
        0x37 => Some((KeyboardState { numpad_asterisk_pressed: true, ..kbd }, eng)),
        0x38 => Some((KeyboardState { lalt_pressed: true, ..kbd }, eng)),
        0x39 => Some((KeyboardState { space_pressed: true, ..kbd }, eng)),
        0x3a => Some(
            (
                KeyboardState { caps_lock_pressed: true, caps_lock_active: !kbd.caps_lock_active, ..kbd },
                eng,
            ),
        ),
        0x45 => Some(
            (
                KeyboardState { num_lock_pressed: true, num_lock_active: !kbd.num_lock_active, ..kbd },
                eng,
            ),
        ),
        0x46 => Some(
            (
                KeyboardState { scroll_lock_pressed: true, scroll_lock_active: !kbd.scroll_lock_active, ..kbd },
                eng,
            ),
        ),
        0x3b => Some((KeyboardState { f1_pressed: true, ..kbd }, eng)),
        0x3c => Some((KeyboardState { f2_pressed: true, ..kbd }, eng)),
        0x3d => Some((KeyboardState { f3_pressed: true, ..kbd }, eng)),
        0x3e => Some((KeyboardState { f4_pressed: true, ..kbd }, eng)),
        0x3f => Some((KeyboardState { f5_pressed: true, ..kbd }, eng)),
        0x40 => Some((KeyboardState { f6_pressed: true, ..kbd }, eng)),
        0x41 => Some((KeyboardState { f7_pressed: true, ..kbd }, eng)),
        0x42 => Some((KeyboardState { f8_pressed: true, ..kbd }, eng)),
        0x43 => Some((KeyboardState { f9_pressed: true, ..kbd }, eng)),
        0x44 => Some((KeyboardState { f10_pressed: true, ..kbd }, eng)),
        0x47 => Some((KeyboardState { numpad_7_pressed: true, ..kbd }, eng)),
        0x48 => Some((KeyboardState { numpad_8_pressed: true, ..kbd }, eng)),
        0x49 => Some((KeyboardState { numpad_9_pressed: true, ..kbd }, eng)),
        0x4a => Some((KeyboardState { numpad_minus_pressed: true, ..kbd }, eng)),
        0x4b => Some((KeyboardState { numpad_4_pressed: true, ..kbd }, eng)),
        0x4c => Some((KeyboardState { numpad_5_pressed: true, ..kbd }, eng)),
        0x4d => Some((KeyboardState { numpad_6_pressed: true, ..kbd }, eng)),
        0x4e => Some((KeyboardState { numpad_plus_pressed: true, ..kbd }, eng)),
        0x4f => Some((KeyboardState { numpad_1_pressed: true, ..kbd }, eng)),
        0x50 => Some((KeyboardState { numpad_2_pressed: true, ..kbd }, eng)),
        0x51 => Some((KeyboardState { numpad_3_pressed: true, ..kbd }, eng)),
        0x52 => Some((KeyboardState { numpad_0_pressed: true, ..kbd }, eng)),
        0x53 => Some((KeyboardState { numpad_dot_pressed: true, ..kbd }, eng)),
        0x57 => Some((KeyboardState { f11_pressed: true, ..kbd }, eng)),
        0x58 => Some((KeyboardState { f12_pressed: true, ..kbd }, eng)),
        0x5d => Some((KeyboardState { context_menu_pressed: true, ..kbd }, eng)),
        0x81 => Some((KeyboardState { esc_pressed: false, ..kbd }, eng)),
        0x82 => Some((KeyboardState { d1_pressed: false, ..kbd }, eng)),
        0x83 => Some((KeyboardState { d2_pressed: false, ..kbd }, eng)),
        0x84 => Some((KeyboardState { d3_pressed: false, ..kbd }, eng)),
        0x85 => Some((KeyboardState { d4_pressed: false, ..kbd }, eng)),
        0x86 => Some((KeyboardState { d5_pressed: false, ..kbd }, eng)),
        0x87 => Some((KeyboardState { d6_pressed: false, ..kbd }, eng)),
        0x88 => Some((KeyboardState { d7_pressed: false, ..kbd }, eng)),
        0x89 => Some((KeyboardState { d8_pressed: false, ..kbd }, eng)),
        0x8a => Some((KeyboardState { d9_pressed: false, ..kbd }, eng)),
        0x8b => Some((KeyboardState { d0_pressed: false, ..kbd }, eng)),
        0x8c => Some((KeyboardState { hyphen_pressed: false, ..kbd }, eng)),
        0x8d => Some((KeyboardState { eq_pressed: false, ..kbd }, eng)),
        0x8e => Some((KeyboardState { backspace_pressed: false, ..kbd }, eng)),
        0x8f => Some((KeyboardState { tab_pressed: false, ..kbd }, eng)),
        0x90 => Some((kbd, EnglishQwertySet { q_pressed: false, ..eng })),
        0x91 => Some((kbd, EnglishQwertySet { w_pressed: false, ..eng })),
        0x92 => Some((kbd, EnglishQwertySet { e_pressed: false, ..eng })),
        0x93 => Some((kbd, EnglishQwertySet { r_pressed: false, ..eng })),
        0x94 => Some((kbd, EnglishQwertySet { t_pressed: false, ..eng })),
        0x95 => Some((kbd, EnglishQwertySet { y_pressed: false, ..eng })),
        0x96 => Some((kbd, EnglishQwertySet { u_pressed: false, ..eng })),
        0x97 => Some((kbd, EnglishQwertySet { i_pressed: false, ..eng })),
        0x98 => Some((kbd, EnglishQwertySet { o_pressed: false, ..eng })),
        0x99 => Some((kbd, EnglishQwertySet { p_pressed: false, ..eng })),
        0x9a => Some((KeyboardState { open_sqbracket_pressed: false, ..kbd }, eng)),
        0x9b => Some((KeyboardState { close_sqbracket_pressed: false, ..kbd }, eng)),
        0x9c => Some((KeyboardState { enter_pressed: false, ..kbd }, eng)),
        0x9d => Some((KeyboardState { lctrl_pressed: false, ..kbd }, eng)),
        0x9e => Some((kbd, EnglishQwertySet { a_pressed: false, ..eng })),
        0x9f => Some((kbd, EnglishQwertySet { s_pressed: false, ..eng })),
        0xa0 => Some((kbd, EnglishQwertySet { d_pressed: false, ..eng })),
        0xa1 => Some((kbd, EnglishQwertySet { f_pressed: false, ..eng })),
        0xa2 => Some((kbd, EnglishQwertySet { g_pressed: false, ..eng })),
        0xa3 => Some((kbd, EnglishQwertySet { h_pressed: false, ..eng })),
        0xa4 => Some((kbd, EnglishQwertySet { j_pressed: false, ..eng })),
        0xa5 => Some((kbd, EnglishQwertySet { k_pressed: false, ..eng })),
        0xa6 => Some((kbd, EnglishQwertySet { l_pressed: false, ..eng })),
        0xa7 => Some((KeyboardState { semicolon_pressed: false, ..kbd }, eng)),
        0xa8 => Some((KeyboardState { single_quote_pressed: false, ..kbd }, eng)),
        0xa9 => Some((KeyboardState { back_tick_pressed: false, ..kbd }, eng)),
        0xaa => Some((KeyboardState { lshift_pressed: false, ..kbd }, eng)),
        0xab => Some((KeyboardState { backslash_pressed: false, ..kbd }, eng)),
        0xac => Some((kbd, EnglishQwertySet { z_pressed: false, ..eng })),
        0xad => Some((kbd, EnglishQwertySet { x_pressed: false, ..eng })),
        0xae => Some((kbd, EnglishQwertySet { c_pressed: false, ..eng })),
        0xaf => Some((kbd, EnglishQwertySet { v_pressed: false, ..eng })),
        0xb0 => Some((kbd, EnglishQwertySet { b_pressed: false, ..eng })),
        0xb1 => Some((kbd, EnglishQwertySet { n_pressed: false, ..eng })),
        0xb2 => Some((kbd, EnglishQwertySet { m_pressed: false, ..eng })),
        0xb3 => Some((KeyboardState { comma_pressed: false, ..kbd }, eng)),
        0xb4 => Some((KeyboardState { dot_pressed: false, ..kbd }, eng)),
        0xb5 => Some((KeyboardState { slash_pressed: false, ..kbd }, eng)),
        0xb6 => Some((KeyboardState { rshift_pressed: false, ..kbd }, eng)),
        0xb7 => Some((KeyboardState { numpad_asterisk_pressed: false, ..kbd }, eng)),
        0xb8 => Some((KeyboardState { lalt_pressed: false, ..kbd }, eng)),
        0xb9 => Some((KeyboardState { space_pressed: false, ..kbd }, eng)),
        0xba => Some((KeyboardState { caps_lock_pressed: false, ..kbd }, eng)),
        0xbb => Some((KeyboardState { f1_pressed: false, ..kbd }, eng)),
        0xbc => Some((KeyboardState { f2_pressed: false, ..kbd }, eng)),
        0xbd => Some((KeyboardState { f3_pressed: false, ..kbd }, eng)),
        0xbe => Some((KeyboardState { f4_pressed: false, ..kbd }, eng)),
        0xbf => Some((KeyboardState { f5_pressed: false, ..kbd }, eng)),
        0xc0 => Some((KeyboardState { f6_pressed: false, ..kbd }, eng)),
        0xc1 => Some((KeyboardState { f7_pressed: false, ..kbd }, eng)),
        0xc2 => Some((KeyboardState { f8_pressed: false, ..kbd }, eng)),
        0xc3 => Some((KeyboardState { f9_pressed: false, ..kbd }, eng)),
        0xc4 => Some((KeyboardState { f10_pressed: false, ..kbd }, eng)),
        0xc5 => Some((KeyboardState { num_lock_pressed: false, ..kbd }, eng)),
        0xc6 => Some((KeyboardState { scroll_lock_pressed: false, ..kbd }, eng)),
        0xc7 => Some((KeyboardState { numpad_7_pressed: false, ..kbd }, eng)),
        0xc8 => Some((KeyboardState { numpad_8_pressed: false, ..kbd }, eng)),
        0xc9 => Some((KeyboardState { numpad_9_pressed: false, ..kbd }, eng)),
        0xca => Some((KeyboardState { numpad_minus_pressed: false, ..kbd }, eng)),
        0xcb => Some((KeyboardState { numpad_4_pressed: false, ..kbd }, eng)),
        0xcc => Some((KeyboardState { numpad_5_pressed: false, ..kbd }, eng)),
        0xcd => Some((KeyboardState { numpad_6_pressed: false, ..kbd }, eng)),
        0xce => Some((KeyboardState { numpad_plus_pressed: false, ..kbd }, eng)),
        0xcf => Some((KeyboardState { numpad_1_pressed: false, ..kbd }, eng)),
        0xd0 => Some((KeyboardState { numpad_2_pressed: false, ..kbd }, eng)),
        0xd1 => Some((KeyboardState { numpad_3_pressed: false, ..kbd }, eng)),
        0xd2 => Some((KeyboardState { numpad_0_pressed: false, ..kbd }, eng)),
        0xd3 => Some((KeyboardState { numpad_dot_pressed: false, ..kbd }, eng)),
        0xd7 => Some((KeyboardState { f11_pressed: false, ..kbd }, eng)),
        0xd8 => Some((KeyboardState { f12_pressed: false, ..kbd }, eng)),
        0xdd => Some((KeyboardState { context_menu_pressed: false, ..kbd }, eng)),
        _ => None,
    }
}

#[verifier::spinoff_prover]
#[verifier::rlimit(100)]
fn extended_update(kbd: KeyboardState, code: u8) -> (r: Option<KeyboardState>)
    ensures
        r == extended_effect(kbd, code),
{
    match code {
        0x1c => Some(KeyboardState { numpad_enter_pressed: true, ..kbd }),
        0x1d => Some(KeyboardState { rctrl_pressed: true, ..kbd }),
        0x2a => Some(KeyboardState { prtsc_pressed: true, ..kbd }),
        0x37 => Some(KeyboardState { prtsc_pressed: true, ..kbd }),
        0x38 => Some(KeyboardState { ralt_pressed: true, ..kbd }),
        0x47 => Some(KeyboardState { home_pressed: true, ..kbd }),
        0x48 => Some(KeyboardState { arrow_up_pressed: true, ..kbd }),
        0x49 => Some(KeyboardState { pgup_pressed: true, ..kbd }),
        0x4b => Some(KeyboardState { arrow_left_pressed: true, ..kbd }),
        0x4d => Some(KeyboardState { arrow_right_pressed: true, ..kbd }),
        0x4f => Some(KeyboardState { end_pressed: true, ..kbd }),
        0x50 => Some(KeyboardState { arrow_down_pressed: true, ..kbd }),
        0x51 => Some(KeyboardState { pgdown_pressed: true, ..kbd }),
        0x52 => Some(KeyboardState { insert_pressed: true, ..kbd }),
        0x53 => Some(KeyboardState { delete_pressed: true, ..kbd }),
        0x5b => Some(KeyboardState { super_pressed: true, ..kbd }),
        0x5d => Some(KeyboardState { context_menu_pressed: true, ..kbd }),
        0x9c => Some(KeyboardState { numpad_enter_pressed: false, ..kbd }),
        0x9d => Some(KeyboardState { rctrl_pressed: false, ..kbd }),
        0xaa => Some(KeyboardState { prtsc_pressed: false, ..kbd }),
        0xb7 => Some(KeyboardState { prtsc_pressed: false, ..kbd }),
        0xb8 => Some(KeyboardState { ralt_pressed: false, ..kbd }),
        0xc7 => Some(KeyboardState { home_pressed: false, ..kbd }),
        0xc8 => Some(KeyboardState { arrow_up_pressed: false, ..kbd }),
        0xc9 => Some(KeyboardState { pgup_pressed: false, ..kbd }),
        0xcb => Some(KeyboardState { arrow_left_pressed: false, ..kbd }),
        0xcd => Some(KeyboardState { arrow_right_pressed: false, ..kbd }),
        0xcf => Some(KeyboardState { end_pressed: false, ..kbd }),
        0xd0 => Some(KeyboardState { arrow_down_pressed: false, ..kbd }),
        0xd1 => Some(KeyboardState { pgdown_pressed: false, ..kbd }),
        0xd2 => Some(KeyboardState { insert_pressed: false, ..kbd }),
        0xd3 => Some(KeyboardState { delete_pressed: false, ..kbd }),
        0xdb => Some(KeyboardState { super_pressed: false, ..kbd }),
        0xdd => Some(KeyboardState { context_menu_pressed: false, ..kbd }),
        _ => None,
    }
}

/// Records a key code in the key state. `false`, with the state unchanged,
/// for a code no key sends.
pub fn apply_key_code(kbd: &mut KeyboardState, eng: &mut EnglishQwertySet, code: KeyCode) -> (known: bool)
    ensures
        match key_effect(*old(kbd), *old(eng), code) {
            Some((k, e)) => known && *final(kbd) == k && *final(eng) == e,
            None => !known && *final(kbd) == *old(kbd) && *final(eng) == *old(eng),
        },
{
    let update = match code {
        KeyCode::Plain(c) => plain_update(*kbd, *eng, c),
        KeyCode::Extended(c) => match extended_update(*kbd, c) {
            Some(k) => Some((k, *eng)),
            None => None,
        },
        KeyCode::Pause(c) => {
            if c == 0x1d45 {
                Some((KeyboardState { pause_pressed: true, ..*kbd }, *eng))
            } else if c == 0x9dc5 {
                Some((KeyboardState { pause_pressed: false, ..*kbd }, *eng))
            } else {
                None
            }
        },
    };
    match update {
        Some((k, e)) => {
            *kbd = k;
            *eng = e;
            true
        },
        None => false,
    }
}

} // verus!
