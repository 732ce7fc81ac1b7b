use dahlia::codes::Code;
use dahlia::resolve::{format_to_ansi, get_ansi, hex_to_ansi};
use dahlia::tables::{
    colors, fmt_background_template, fmt_template, formatter, COLORS_24BIT, COLORS_3BIT,
    COLORS_4BIT, COLORS_8BIT,
};
use dahlia::Depth;

#[test]
fn formatter_maps_attribute_letters() {
    assert_eq!(formatter('l', None), Some(vec![1]));
    assert_eq!(formatter('n', None), Some(vec![4]));
    assert_eq!(formatter('R', None), Some(vec![0]));
    assert_eq!(formatter('r', Some('c')), Some(vec![39, 49]));
    assert_eq!(formatter('r', Some('n')), Some(vec![24]));
    assert_eq!(formatter('z', None), None);
    assert_eq!(formatter('r', Some('z')), None);
    assert_eq!(formatter('x', Some('n')), None);
}

#[test]
fn color_tables_agree_with_the_palette() {
    assert_eq!(COLORS_3BIT('3'), Some(36));
    assert_eq!(COLORS_3BIT('8'), Some(30));
    assert_eq!(COLORS_4BIT('8'), Some(90));
    assert_eq!(COLORS_8BIT('e'), Some(227));
    assert_eq!(COLORS_24BIT('a'), Some((85, 255, 85)));
    assert_eq!(COLORS_3BIT('g'), None);
    assert_eq!(COLORS_4BIT('G'), None);
    assert_eq!(COLORS_8BIT('#'), None);
    assert_eq!(COLORS_24BIT('~'), None);
}

#[test]
fn colors_selects_the_table_of_the_depth() {
    assert_eq!(colors(Depth::Tty, 'e'), Some(33));
    assert_eq!(colors(Depth::Low, 'e'), Some(93));
    assert_eq!(colors(Depth::Medium, 'e'), Some(227));
    assert_eq!(colors(Depth::High, 'e'), None);
}

#[test]
fn templates_follow_the_depth() {
    assert_eq!(fmt_template(Depth::Tty), "\x1b[{}m");
    assert_eq!(fmt_template(Depth::Low), "\x1b[{}m");
    assert_eq!(fmt_template(Depth::Medium), "\x1b[38;5;{}m");
    assert_eq!(fmt_template(Depth::High), "\x1b[38;2;{r};{g};{b}m");
    assert_eq!(fmt_background_template(Depth::Tty), "\x1b[{}m");
    assert_eq!(fmt_background_template(Depth::Medium), "\x1b[48;5;{}m");
    assert_eq!(fmt_background_template(Depth::High), "\x1b[48;2;{r};{g};{b}m");
}

#[test]
fn background_offset_at_low_depth() {
    let fg = Code::Color { background: false, code: '3' };
    let bg = Code::Color { background: true, code: '3' };
    assert_eq!(get_ansi(&fg, Depth::Low), "\x1b[36m");
    assert_eq!(get_ansi(&bg, Depth::Low), "\x1b[46m");
}

#[test]
fn background_family_at_medium_depth() {
    let fg = Code::Color { background: false, code: '3' };
    let bg = Code::Color { background: true, code: '3' };
    assert_eq!(get_ansi(&fg, Depth::Medium), "\x1b[38;5;37m");
    assert_eq!(get_ansi(&bg, Depth::Medium), "\x1b[48;5;37m");
}

#[test]
fn palette_colors_at_high_depth_use_rgb() {
    let fg = Code::Color { background: false, code: 'a' };
    assert_eq!(get_ansi(&fg, Depth::High), "\x1b[38;2;85;255;85m");
}

#[test]
fn hex_codes_expand_nibbles() {
    assert_eq!(hex_to_ansi("f0f", false), "\x1b[38;2;255;0;255m");
    assert_eq!(hex_to_ansi("ff00ff", false), "\x1b[38;2;255;0;255m");
    assert_eq!(hex_to_ansi("f00ffa", true), "\x1b[48;2;240;15;250m");
}

#[test]
fn format_to_ansi_concatenates_sequences() {
    assert_eq!(format_to_ansi('r', Some('c')), "\x1b[39m\x1b[49m");
    assert_eq!(format_to_ansi('l', None), "\x1b[1m");
}
