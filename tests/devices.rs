use ruin::acpi::{check_xsdp, find_xsdp, read_xsdp};
use ruin::keyboard::{apply_key_code, EnglishQwertySet, KeyCode, KeyboardState, ScancodeDecoder};
use ruin::paging::{table_indexes, translate};
use ruin::pci::{config_address, config_word, vendor_present};

fn rsdp(revision: u8) -> Vec<u8> {
    let mut t = vec![0u8; 36];
    t[..8].copy_from_slice(b"RSD PTR ");
    t[15] = revision;
    let sum20: u8 = t[..20].iter().fold(0u8, |a, b| a.wrapping_add(*b));
    t[8] = 0u8.wrapping_sub(sum20);
    let sum36: u8 = t.iter().fold(0u8, |a, b| a.wrapping_add(*b));
    t[32] = 0u8.wrapping_sub(sum36);
    t
}

#[test]
fn xsdp_checksums() {
    let t = rsdp(2);
    assert!(check_xsdp(&t, 0));
    let mut bad = t.clone();
    bad[20] = bad[20].wrapping_add(1);
    assert!(!check_xsdp(&bad, 0));
    let mut v1 = rsdp(0);
    v1[30] = 9;
    assert!(check_xsdp(&v1, 0));
}

#[test]
fn xsdp_is_found_after_decoys() {
    let mut mem = vec![0u8; 100];
    mem[3..11].copy_from_slice(b"RSD PTR ");
    let t = rsdp(2);
    mem[50..86].copy_from_slice(&t);
    assert_eq!(find_xsdp(&mem), Some(50));
    assert_eq!(find_xsdp(&mem[..80]), None);
    assert_eq!(find_xsdp(&[]), None);
}

#[test]
fn pci_addresses_and_words() {
    assert_eq!(config_address(0, 0, 0, 0), 0x8000_0000);
    assert_eq!(config_address(0, 0, 1, 0x13), 0x8000_0110);
    assert_eq!(config_address(1, 2, 0, 0), 0x0001_1000);
    assert_eq!(config_word(0x1234_8086, 0), 0x8086);
    assert_eq!(config_word(0x1234_8086, 2), 0x1234);
    assert!(vendor_present(0x8086));
    assert!(!vendor_present(0xffff));
}

#[test]
fn page_table_walk_indexes() {
    let addr: u64 = (1 << 39) * 3 + (1 << 30) * 5 + (1 << 21) * 7 + (1 << 12) * 9 + 0x123;
    assert_eq!(table_indexes(addr), [3, 5, 7, 9]);
    assert_eq!(table_indexes(0x4444_4444_0000), [136, 273, 34, 64]);
    assert_eq!(translate(0x20_0000, addr), 0x20_0123);
}

#[test]
fn decoder_handles_prefixes() {
    let mut d = ScancodeDecoder::new();
    assert_eq!(d.feed(0x1e), Some(KeyCode::Plain(0x1e)));
    assert_eq!(d.feed(0xe0), None);
    assert_eq!(d.feed(0x48), Some(KeyCode::Extended(0x48)));
    assert_eq!(d.feed(0xe1), None);
    assert_eq!(d.feed(0x1d), None);
    assert_eq!(d.feed(0x45), Some(KeyCode::Pause(0x1d45)));
    assert_eq!(d.feed(0x9e), Some(KeyCode::Plain(0x9e)));
}

#[test]
fn key_state_starts_released() {
    let k = KeyboardState::released();
    assert!(!k.esc_pressed && !k.caps_lock_active && !k.numpad_enter_pressed);
    let e = EnglishQwertySet::released();
    assert!(!e.q_pressed && !e.m_pressed);
}

#[test]
fn xsdp_fields_are_little_endian() {
    let mut t = rsdp(2);
    t[9..15].copy_from_slice(b"BOCHS ");
    t[16..20].copy_from_slice(&0x000f_1234u32.to_le_bytes());
    t[20..24].copy_from_slice(&36u32.to_le_bytes());
    t[24..32].copy_from_slice(&0x1122_3344_5566_7788u64.to_le_bytes());
    let x = read_xsdp(&t, 0);
    assert_eq!(&x.signature, b"RSD PTR ");
    assert_eq!(&x.oemiud, b"BOCHS ");
    assert_eq!(x.revision, 2);
    assert_eq!(x.rsdt_address, 0x000f_1234);
    assert_eq!(x.length, 36);
    assert_eq!(x.xsdt_address, 0x1122_3344_5566_7788);
    assert_eq!(x.checksum, t[8]);
    assert_eq!(x.checksum2, t[32]);
}

#[test]
fn key_codes_update_key_state() {
    let mut k = KeyboardState::released();
    let mut e = EnglishQwertySet::released();
    assert!(apply_key_code(&mut k, &mut e, KeyCode::Plain(0x01)));
    assert!(k.esc_pressed);
    assert!(apply_key_code(&mut k, &mut e, KeyCode::Plain(0x10)));
    assert!(e.q_pressed);
    assert!(apply_key_code(&mut k, &mut e, KeyCode::Plain(0x90)));
    assert!(!e.q_pressed);
    assert!(apply_key_code(&mut k, &mut e, KeyCode::Extended(0x48)));
    assert!(k.arrow_up_pressed);
    assert!(apply_key_code(&mut k, &mut e, KeyCode::Pause(0x1d45)));
    assert!(k.pause_pressed);
    let before = (k, e);
    assert!(!apply_key_code(&mut k, &mut e, KeyCode::Extended(0x01)));
    assert!(!apply_key_code(&mut k, &mut e, KeyCode::Pause(0x1234)));
    assert_eq!((k, e), before);
    assert!(k.esc_pressed);
}

#[test]
fn lock_keys_toggle_on_press() {
    let mut k = KeyboardState::released();
    let mut e = EnglishQwertySet::released();
    for (press, release) in [(0x3a, 0xba), (0x45, 0xc5), (0x46, 0xc6)] {
        assert!(apply_key_code(&mut k, &mut e, KeyCode::Plain(press)));
        assert!(apply_key_code(&mut k, &mut e, KeyCode::Plain(release)));
    }
    assert!(k.caps_lock_active && k.num_lock_active && k.scroll_lock_active);
    assert!(!k.caps_lock_pressed && !k.num_lock_pressed && !k.scroll_lock_pressed);
    assert!(apply_key_code(&mut k, &mut e, KeyCode::Plain(0x3a)));
    assert!(k.caps_lock_pressed && !k.caps_lock_active);
    assert!(k.num_lock_active);
}
