use dahlia::{Dahlia, Depth};

#[test]
fn converts_palette_colors_at_high_depth() {
    let d = Dahlia::new(Some(Depth::High), true, '&');
    assert_eq!(
        d.convert("&aHello &cWorld"),
        "\x1b[38;2;85;255;85mHello \x1b[38;2;255;85;85mWorld\x1b[0m"
    );
}

#[test]
fn handles_marker_ampersand() {
    let d = Dahlia::new(Some(Depth::Low), false, '&');
    assert_eq!(d.convert("&ee\u{a7}ee\u{a7}\u{a7}_4x"), "\x1b[93me\u{a7}ee\u{a7}\u{a7}_4x");
}

#[test]
fn handles_marker_e() {
    let d = Dahlia::new(Some(Depth::Low), false, 'e');
    assert_eq!(
        d.convert("&ee\u{a7}ee\u{a7}\u{a7}_4x"),
        "&\x1b[93m\u{a7}\x1b[93m\u{a7}\u{a7}_4x"
    );
}

#[test]
fn handles_marker_section() {
    let d = Dahlia::new(Some(Depth::Low), false, '\u{a7}');
    assert_eq!(d.convert("&ee\u{a7}ee\u{a7}\u{a7}_4x"), "&ee\x1b[93me\u{a7}\u{a7}4x");
}

#[test]
fn handles_marker_underscore() {
    let d = Dahlia::new(Some(Depth::Low), false, '_');
    assert_eq!(d.convert("&ee\u{a7}ee\u{a7}\u{a7}_4x"), "&ee\u{a7}ee\u{a7}\u{a7}\x1b[31mx");
}

#[test]
fn handles_marker_four() {
    let d = Dahlia::new(Some(Depth::Low), false, '4');
    assert_eq!(d.convert("&ee\u{a7}ee\u{a7}\u{a7}_4x"), "&ee\u{a7}ee\u{a7}\u{a7}_4x");
}

#[test]
fn handles_marker_x() {
    let d = Dahlia::new(Some(Depth::Low), false, 'x');
    assert_eq!(d.convert("&ee\u{a7}ee\u{a7}\u{a7}_4x"), "&ee\u{a7}ee\u{a7}\u{a7}_4x");
}

#[test]
fn handles_weird_markers_in_convert() {
    for marker in ['$', '^', '?', '(', ')', '\\', '/', '[', ']', '*', '+', '.'] {
        let d = Dahlia::new(Some(Depth::Low), false, marker);
        let input = format!("{}4foo{}_2bar", marker, marker);
        let expected = format!("\x1b[31mfoo{}2bar", marker);
        assert_eq!(d.convert(&input), expected, "marker {:?}", marker);
    }
}

#[test]
fn handles_auto_reset_on() {
    let d = Dahlia::new(Some(Depth::Low), true, '&');
    assert_eq!(d.convert("a"), "a\x1b[0m");
}

#[test]
fn handles_auto_reset_on_with_reset_present() {
    let d = Dahlia::new(Some(Depth::Low), true, '&');
    assert_eq!(d.convert("a&R"), "a\x1b[0m");
}

#[test]
fn handles_auto_reset_off() {
    let d = Dahlia::new(Some(Depth::Low), false, '&');
    assert_eq!(d.convert("a"), "a");
}

#[test]
fn handles_auto_reset_off_with_reset_present() {
    let d = Dahlia::new(Some(Depth::Low), false, '&');
    assert_eq!(d.convert("a&R"), "a\x1b[0m");
}

#[test]
fn handles_depth_tty() {
    let d = Dahlia::new(Some(Depth::Tty), false, '&');
    assert_eq!(
        d.convert("&e&nunderlined&R &~eyellow"),
        "\x1b[33m\x1b[4munderlined\x1b[0m \x1b[43myellow"
    );
}

#[test]
fn handles_depth_low() {
    let d = Dahlia::new(Some(Depth::Low), false, '&');
    assert_eq!(
        d.convert("&e&nunderlined&R &~eyellow"),
        "\x1b[93m\x1b[4munderlined\x1b[0m \x1b[103myellow"
    );
}

#[test]
fn handles_depth_medium() {
    let d = Dahlia::new(Some(Depth::Medium), false, '&');
    assert_eq!(
        d.convert("&e&nunderlined&R &~eyellow"),
        "\x1b[38;5;227m\x1b[4munderlined\x1b[0m \x1b[48;5;227myellow"
    );
}

#[test]
fn handles_depth_high() {
    let d = Dahlia::new(Some(Depth::High), false, '&');
    assert_eq!(
        d.convert("&e&nunderlined&R &~eyellow"),
        "\x1b[38;2;255;255;85m\x1b[4munderlined\x1b[0m \x1b[48;2;255;255;85myellow"
    );
}

#[test]
fn handles_depth_none() {
    let d = Dahlia::new(None, false, '&');
    assert_eq!(d.convert("&e&nunderlined&R &~eyellow"), "underlined yellow");
}

#[test]
fn handles_hex_short() {
    let d = Dahlia::new(Some(Depth::Low), false, '&');
    assert_eq!(d.convert("&#f0f;"), "\x1b[38;2;255;0;255m");
}

#[test]
fn handles_hex_long() {
    let d = Dahlia::new(Some(Depth::Low), false, '&');
    assert_eq!(d.convert("&#ff00ff;"), "\x1b[38;2;255;0;255m");
}

#[test]
fn handles_hex_long_without_repeat() {
    let d = Dahlia::new(Some(Depth::Low), false, '&');
    assert_eq!(d.convert("&#f00ffa;"), "\x1b[38;2;240;15;250m");
}

#[test]
fn handles_hex_background() {
    let d = Dahlia::new(Some(Depth::Low), false, '&');
    assert_eq!(d.convert("&~#ff00ff;"), "\x1b[48;2;255;0;255m");
}

#[test]
fn hex_ignores_configured_depth() {
    let d = Dahlia::new(Some(Depth::Tty), false, '&');
    assert_eq!(d.convert("&#f0f;"), "\x1b[38;2;255;0;255m");
}

#[test]
fn escaped_code_stays_literal() {
    let d = Dahlia::new(Some(Depth::Low), false, '&');
    assert_eq!(d.convert("&_4foo"), "&4foo");
}

#[test]
fn reset_codes_render_fixed_parameters() {
    let d = Dahlia::new(Some(Depth::Low), false, '&');
    assert_eq!(d.convert("x&rfy"), "x\x1b[39my");
    assert_eq!(d.convert("x&rby"), "x\x1b[49my");
    assert_eq!(d.convert("x&rcy"), "x\x1b[39m\x1b[49my");
    assert_eq!(d.convert("x&rny"), "x\x1b[24my");
}

#[test]
fn lone_reset_prefix_is_not_a_code() {
    let d = Dahlia::new(Some(Depth::Low), false, '&');
    assert_eq!(d.convert("&rx"), "&rx");
}

#[test]
fn reconfigured_marker_switches_grammar() {
    let d = Dahlia::new(Some(Depth::Low), false, '&');
    let d = d.with_marker('!');
    assert_eq!(d.convert("&4foo"), "&4foo");
    assert_eq!(d.convert("!4foo"), "\x1b[31mfoo");
}

#[test]
fn set_marker_switches_grammar() {
    let mut d = Dahlia::new(Some(Depth::Low), false, '&');
    d.set_marker('\u{a7}');
    assert_eq!(d.convert("&e yes"), "&e yes");
    assert_eq!(d.convert("\u{a7}e yes"), "\x1b[93m yes");
}

#[test]
fn empty_input_with_auto_reset() {
    let d = Dahlia::new(Some(Depth::Low), true, '&');
    assert_eq!(d.convert(""), "\x1b[0m");
}

#[test]
fn escape_makes_markers_literal() {
    let d = Dahlia::new(Some(Depth::High), false, '&');
    let escaped = d.escape("&aHello &cWorld");
    assert_eq!(escaped, "&_aHello &_cWorld");
    assert_eq!(d.convert(&escaped), "&aHello &cWorld");
}

#[test]
fn demo_pattern_matches_explicit_conversion() {
    let d = Dahlia::new(Some(Depth::Low), false, '&');
    let mut input = String::new();
    for ch in "0123456789abcdef".chars() {
        input.push('&');
        input.push(ch);
        input.push(ch);
    }
    for ch in "hijklmno".chars() {
        input.push('&');
        input.push('R');
        input.push('&');
        input.push(ch);
        input.push(ch);
    }
    assert_eq!(d.test(), d.convert(&input));
}

#[test]
fn builders_configure_the_converter() {
    let d = Dahlia::default().with_depth(Depth::Medium).with_auto_reset(false);
    assert_eq!(d.convert("&3x"), "\x1b[38;5;37mx");
    let mut d2 = Dahlia::new(None, false, '&');
    d2.set_depth(Depth::Tty);
    d2.set_auto_reset(true);
    assert_eq!(d2.convert("&3x"), "\x1b[36mx\x1b[0m");
}
