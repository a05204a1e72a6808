use mmserver::compositor::window_list::remove_window;
use mmserver::input::{
    axis_to_evdev, button_to_evdev, cursor_icon_to_proto, gamepad_button_to_evdev, key_to_evdev,
    Button, ClientCursorIcon, CursorIcon, GamepadAxis, GamepadButton, Key,
};
use mmserver::math::{log2_ceil, next_multiple_of};
use mmserver::net::IpAddr;
use mmserver::pixel_scale::{PixelScale, ProtocolPixelScale};
use mmserver::text::{
    chars_of, decimal_text, decode_text, parse_unsigned, spells, take_first_word,
    trim_matches,
};

fn v4(a: u8, b: u8, c: u8, d: u8) -> IpAddr {
    IpAddr::V4(u32::from_be_bytes([a, b, c, d]))
}

fn text(chars: Vec<char>) -> String {
    chars.into_iter().collect()
}

#[test]
fn whole_and_fractional_scales() {
    assert!(!PixelScale(2, 1).is_fractional());
    assert!(PixelScale(3, 2).is_fractional());
    assert_eq!(PixelScale(3, 2).ceil(), PixelScale(4, 2));
    assert_eq!(PixelScale(4, 2).ceil(), PixelScale(4, 2));
    assert_eq!(PixelScale(4, 2).try_into_u32().ok(), Some(2));
    match PixelScale(3, 2).try_into_u32() {
        Err(err) => assert_eq!(err.message(), "scale is fractional"),
        Ok(_) => panic!("expected error"),
    }
    assert_eq!(PixelScale::default(), PixelScale::one());
}

#[test]
fn scales_of_clients() {
    let scale = |numerator, denominator| ProtocolPixelScale {
        numerator,
        denominator,
    };
    assert_eq!(
        PixelScale::try_from_protocol(scale(3, 2)).ok(),
        Some(PixelScale(3, 2))
    );
    assert_eq!(
        PixelScale::try_from_protocol(scale(7, 0)).ok(),
        Some(PixelScale(1, 1))
    );
    match PixelScale::try_from_protocol(scale(0, 1)) {
        Err(err) => assert_eq!(err.message(), "invalid pixel scale: 0/1"),
        Ok(_) => panic!("expected error"),
    }
    assert!(PixelScale::try_from_protocol(scale(0, 0)).is_err());
    let back = PixelScale(5, 4).to_protocol();
    assert_eq!(
        PixelScale::try_from_protocol(back).ok(),
        Some(PixelScale(5, 4))
    );
}

#[test]
fn addresses_that_need_a_certificate() {
    for addr in [
        v4(10, 1, 2, 3),
        v4(172, 16, 0, 1),
        v4(192, 168, 1, 1),
        v4(127, 0, 0, 1),
        v4(169, 254, 0, 1),
        v4(100, 64, 123, 45),
        IpAddr::V6(1),
        IpAddr::V6(0xfe80 << 112 | 1),
        IpAddr::V6(0xfd00 << 112 | 1),
    ] {
        assert!(!addr.is_global());
        assert!(!addr.requires_tls());
    }
    for addr in [
        v4(8, 8, 8, 8),
        v4(100, 128, 0, 1),
        v4(172, 32, 0, 1),
        IpAddr::V6(0x2606_4700 << 96 | 1),
    ] {
        assert!(addr.is_global());
        assert!(addr.requires_tls());
    }
    for addr in [v4(0, 0, 0, 0), IpAddr::V6(0)] {
        assert!(addr.is_unspecified());
        assert!(addr.requires_tls());
    }
}

#[test]
fn global_addresses_agree_with_ip_rfc() {
    let mut addr: u32 = 0;
    loop {
        assert_eq!(
            IpAddr::V4(addr).is_global(),
            ip_rfc::global_v4(&addr.into()),
            "{:x}",
            addr
        );
        match addr.checked_add(0x0001_f351) {
            Some(next) => addr = next,
            None => break,
        }
    }
    for first in 0..=0xffffu128 {
        let addr = first << 112 | 0x1234;
        assert_eq!(
            IpAddr::V6(addr).is_global(),
            ip_rfc::global_v6(&addr.into()),
            "{:x}",
            addr
        );
    }
}

#[test]
fn numbers_are_rounded() {
    assert_eq!(next_multiple_of(0, 16), 0);
    assert_eq!(next_multiple_of(1, 16), 16);
    assert_eq!(next_multiple_of(16, 16), 16);
    assert_eq!(next_multiple_of(1080, 16), 1088);
    assert_eq!(log2_ceil(1), 0);
    assert_eq!(log2_ceil(2), 1);
    assert_eq!(log2_ceil(5), 3);
    assert_eq!(log2_ceil(256), 8);
    assert_eq!(log2_ceil(257), 9);
}

#[test]
fn texts_and_numbers() {
    assert_eq!(decimal_text(0), "0");
    assert_eq!(decimal_text(907), "907");
    assert_eq!(decimal_text(u64::MAX), "18446744073709551615");
    assert_eq!(parse_unsigned(&chars_of("0042"), 100), Some(42));
    assert_eq!(parse_unsigned(&chars_of("+7"), 100), Some(7));
    assert_eq!(parse_unsigned(&chars_of("101"), 100), None);
    assert_eq!(parse_unsigned(&chars_of(""), 100), None);
    assert_eq!(parse_unsigned(&chars_of("+"), 100), None);
    assert_eq!(parse_unsigned(&chars_of("-1"), 100), None);
    assert_eq!(parse_unsigned(&chars_of("1a"), 100), None);
    assert!(spells(&chars_of("abc"), "abc"));
    assert!(!spells(&chars_of("abc"), "abd"));
    assert!(!spells(&chars_of("ab"), "abc"));
    assert_eq!(text(trim_matches(chars_of("\"x\"y\""), '"')), "x\"y");
    assert_eq!(text(trim_matches(chars_of("\"\""), '"')), "");
    assert_eq!(text(take_first_word(&chars_of(" \t ab\u{a0}cd"))), "ab");
    assert_eq!(text(take_first_word(&chars_of("  "))), "");
}

#[test]
fn bytes_are_decoded() {
    assert_eq!(
        decode_text("grüße".as_bytes().to_vec()),
        Some("grüße".to_string())
    );
    assert_eq!(decode_text(vec![0xff, 0x41]), None);
    assert_eq!(decode_text(vec![]), Some(String::new()));
}

#[test]
fn ids_are_removed() {
    let mut list = vec![1, 2, 3, 2];
    remove_window(&mut list, 2);
    assert_eq!(list, vec![1, 3]);
    remove_window(&mut list, 9);
    assert_eq!(list, vec![1, 3]);
}

#[test]
fn keys_have_codes() {
    assert_eq!(key_to_evdev(Key::Escape), Some(1));
    assert_eq!(key_to_evdev(Key::A), Some(30));
    assert_eq!(key_to_evdev(Key::Space), Some(57));
    assert_eq!(key_to_evdev(Key::Lang5), Some(85));
    assert_eq!(key_to_evdev(Key::NumpadEnter), Some(96));
    assert_eq!(key_to_evdev(Key::NumpadParenRight), Some(180));
    assert_eq!(key_to_evdev(Key::NumpadBackspace), Some(14));
    assert_eq!(key_to_evdev(Key::Fn), None);
    assert_eq!(key_to_evdev(Key::Lang1), None);
    assert_eq!(key_to_evdev(Key::Unknown), None);
}

#[test]
fn buttons_and_axes_have_codes() {
    assert_eq!(axis_to_evdev(GamepadAxis::LeftX), Some((0, false)));
    assert_eq!(axis_to_evdev(GamepadAxis::LeftTrigger), Some((2, true)));
    assert_eq!(axis_to_evdev(GamepadAxis::RightTrigger), Some((5, true)));
    assert_eq!(axis_to_evdev(GamepadAxis::Unknown), None);
    assert_eq!(gamepad_button_to_evdev(GamepadButton::South), Some(0x130));
    assert_eq!(gamepad_button_to_evdev(GamepadButton::West), Some(0x134));
    assert_eq!(gamepad_button_to_evdev(GamepadButton::Share), None);
    assert_eq!(button_to_evdev(Button::Left), Some(0x110));
    assert_eq!(button_to_evdev(Button::Unknown), None);
}

#[test]
fn cursor_shapes() {
    assert_eq!(
        cursor_icon_to_proto(CursorIcon::Grab),
        ClientCursorIcon::Grab
    );
    assert_eq!(
        cursor_icon_to_proto(CursorIcon::Other),
        ClientCursorIcon::Default
    );
    assert_eq!(
        cursor_icon_to_proto(CursorIcon::Default),
        ClientCursorIcon::Default
    );
}
