use cat_fax::color::Rgb;
use cat_fax::escape::{color_escape, reset_escape};

#[test]
fn foreground_code_is_exact() {
    let c = Rgb { r: 255, g: 0, b: 0 };
    assert_eq!(color_escape(c, false), "\u{1b}[38;2;255;0;0m");
    let c = Rgb { r: 7, g: 42, b: 128 };
    assert_eq!(color_escape(c, false), "\u{1b}[38;2;7;42;128m");
}

#[test]
fn background_code_is_exact() {
    let c = Rgb { r: 0, g: 200, b: 55 };
    assert_eq!(color_escape(c, true), "\u{1b}[48;2;0;200;55m");
}

#[test]
fn reset_code_is_exact() {
    assert_eq!(reset_escape(), "\u{1b}[0m");
}
