use enso::keys::{vkey_to_char, GraphicKey, KeyDirection, VirtualKey};

const VK_0: i32 = 0x30;
const VK_9: i32 = 0x39;
const VK_A: i32 = 0x41;
const VK_Z: i32 = 0x5a;
const VK_F1: i32 = 0x70;

#[test]
fn test_vkey_to_char() {
    assert_eq!(vkey_to_char(VK_0), Some('0'));
    assert_eq!(vkey_to_char(VK_0 + 3), Some('3'));
    assert_eq!(vkey_to_char(VK_9), Some('9'));
    assert_eq!(vkey_to_char(VK_A), Some('A'));
    assert_eq!(vkey_to_char(VK_A + 3), Some('D'));
    assert_eq!(vkey_to_char(VK_Z), Some('Z'));
    assert_eq!(vkey_to_char(VK_F1), None);
}

#[test]
fn space_key_types_a_space() {
    assert_eq!(vkey_to_char(0x20), Some(' '));
}

#[test]
fn graphic_keys_upper_case_letters() {
    assert_eq!(GraphicKey::new('c').unwrap().char(), 'C');
    assert_eq!(GraphicKey::new('C').unwrap().char(), 'C');
    assert_eq!(GraphicKey::new('[').unwrap().char(), '[');
    assert!(GraphicKey::new(' ').is_none());
    assert!(GraphicKey::new('\u{e9}').is_none());
    assert_eq!(char::from(GraphicKey::new('q').unwrap()), 'Q');
}

#[test]
fn key_names_parse_in_any_case() {
    assert_eq!(VirtualKey::parse("ctrl"), Some(VirtualKey::Control));
    assert_eq!(VirtualKey::parse("Control"), Some(VirtualKey::Control));
    assert_eq!(VirtualKey::parse("SHIFT"), Some(VirtualKey::Shift));
    assert_eq!(VirtualKey::parse("f12"), Some(VirtualKey::F12));
    assert_eq!(VirtualKey::parse("c"), Some(VirtualKey::Graphic(GraphicKey::new('c').unwrap())));
    assert_eq!(VirtualKey::parse("ctl"), None);
    assert_eq!(VirtualKey::parse(""), None);
    assert_eq!(VirtualKey::parse(" "), None);
}

#[test]
fn virtual_key_codes() {
    assert_eq!(u8::from(VirtualKey::Shift), 0x10);
    assert_eq!(u8::from(VirtualKey::Control), 0x11);
    assert_eq!(u8::from(VirtualKey::Enter), 0x0D);
    assert_eq!(u8::from(VirtualKey::F10), 0x79);
    assert_eq!(u8::from(VirtualKey::Graphic(GraphicKey::new('a').unwrap())), 0x41);
    assert_eq!(KeyDirection::Up, KeyDirection::Up);
}
