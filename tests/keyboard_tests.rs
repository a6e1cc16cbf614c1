use tailor_gui::hardware::{SysfsNode, SysfsValue, SysfsWrite};
use tailor_gui::keyboard::{KeyboardController, KeyboardError};
use tailor_gui::profile::RGBColor;

/// A keyboard whose `max_brightness` is 255 and which has a color node.
fn mock_keyboard() -> KeyboardController {
    KeyboardController::new(255, true)
}

fn written_number(w: SysfsWrite) -> u8 {
    match w.value {
        SysfsValue::Number(n) => n as u8,
        other => panic!("unexpected value {:?}", other),
    }
}

fn color_text(w: SysfsWrite) -> String {
    match w.value {
        SysfsValue::Color(c) => format!("{} {} {}", c.r, c.g, c.b),
        other => panic!("unexpected value {:?}", other),
    }
}

#[test]
fn test_brightness_conversion() {
    let controller = mock_keyboard();
    let brightness = controller.get_brightness(128);
    assert_eq!(brightness, 50);
}

#[test]
fn test_set_brightness() {
    let controller = mock_keyboard();

    let raw = written_number(controller.set_brightness(100).unwrap());
    assert_eq!(controller.get_brightness(raw), 100);

    let raw = written_number(controller.set_brightness(0).unwrap());
    assert_eq!(controller.get_brightness(raw), 0);
}

#[test]
fn test_color_operations() {
    let controller = mock_keyboard();

    let text = color_text(controller.set_color(255, 0, 0).unwrap());
    let (r, g, b) = controller.get_color(&text).unwrap();
    assert_eq!((r, g, b), (255, 0, 0));

    let text = color_text(controller.set_color(0, 0, 255).unwrap());
    let (r, g, b) = controller.get_color(&text).unwrap();
    assert_eq!((r, g, b), (0, 0, 255));
}

#[test]
fn test_invalid_brightness() {
    let controller = mock_keyboard();
    assert!(controller.set_brightness(101).is_err());
}

#[test]
fn test_rgb_support_check() {
    let controller = mock_keyboard();
    assert!(controller.has_rgb_support());
}

#[test]
fn brightness_write_scales_to_max() {
    let k = KeyboardController::new(255, true);
    assert_eq!(
        k.set_brightness(50),
        Ok(SysfsWrite { node: SysfsNode::KeyboardBrightness, value: SysfsValue::Number(127) })
    );
    assert_eq!(k.set_brightness(101), Err(KeyboardError::BrightnessOutOfRange));
    let small = KeyboardController::new(3, false);
    assert_eq!(written_number(small.set_brightness(100).unwrap()), 3);
    assert_eq!(small.get_brightness(2), 66);
    assert_eq!(KeyboardController::new(0, true).get_brightness(10), 0);
    assert_eq!(small.get_brightness(9), 100);
}

#[test]
fn color_needs_rgb_support() {
    let k = KeyboardController::new(255, false);
    assert_eq!(k.set_color(1, 2, 3), Err(KeyboardError::NoRgbSupport));
    assert_eq!(k.get_color("1 2 3"), Err(KeyboardError::NoRgbSupport));
    assert!(!k.has_rgb_support());
    assert_eq!(k.max_brightness(), 255);
}

#[test]
fn color_text_must_hold_three_bytes() {
    let k = mock_keyboard();
    assert_eq!(k.get_color("  10\t20 30\n"), Ok((10, 20, 30)));
    assert_eq!(k.get_color("10 20"), Err(KeyboardError::InvalidColorFormat));
    assert_eq!(k.get_color("10 20 30 40"), Err(KeyboardError::InvalidColorFormat));
    assert_eq!(k.get_color("10 256 30"), Err(KeyboardError::InvalidColorFormat));
    assert_eq!(k.get_color("10 x 30"), Err(KeyboardError::InvalidColorFormat));
}

#[test]
fn color_and_brightness_together() {
    let k = mock_keyboard();
    let writes = k.set_color_and_brightness(1, 2, 3, 100).unwrap();
    assert_eq!(
        writes,
        vec![
            SysfsWrite {
                node: SysfsNode::KeyboardColor,
                value: SysfsValue::Color(RGBColor { r: 1, g: 2, b: 3 }),
            },
            SysfsWrite { node: SysfsNode::KeyboardBrightness, value: SysfsValue::Number(255) },
        ]
    );
    assert_eq!(k.set_color_and_brightness(1, 2, 3, 101), Err(KeyboardError::BrightnessOutOfRange));
    let plain = KeyboardController::new(255, false);
    assert_eq!(plain.set_color_and_brightness(1, 2, 3, 101), Err(KeyboardError::NoRgbSupport));
}

#[test]
fn turn_off_and_is_on() {
    let k = mock_keyboard();
    assert_eq!(
        k.turn_off(),
        SysfsWrite { node: SysfsNode::KeyboardBrightness, value: SysfsValue::Number(0) }
    );
    assert!(k.is_on(128));
    assert!(!k.is_on(0));
    assert!(!k.is_on(2));
}
