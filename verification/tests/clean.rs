use dahlia::{clean_ansi, Dahlia, Depth};

#[test]
fn clean_strips_codes() {
    let d = Dahlia::new(Some(Depth::Low), false, '&');
    assert_eq!(d.clean("&2>be me"), ">be me");
}

#[test]
fn clean_handles_underlined_yellow() {
    let d = Dahlia::new(Some(Depth::Low), false, '&');
    assert_eq!(d.clean("&e&nunderlined&rn yellow"), "underlined yellow");
}

#[test]
fn clean_leaves_foreign_marker_codes() {
    let d = Dahlia::new(Some(Depth::Low), false, '!');
    assert_eq!(d.clean("&e&nunderlined&rn yellow"), "&e&nunderlined&rn yellow");
}

#[test]
fn clean_handles_changed_marker() {
    let d = Dahlia::new(Some(Depth::Low), false, '!');
    assert_eq!(d.clean("!e!nunderlined!rn yellow"), "underlined yellow");
}

#[test]
fn clean_unescapes_marker_tokens() {
    let d = Dahlia::new(Some(Depth::Low), false, '\u{a7}');
    assert_eq!(d.clean("\u{a7}_4 gives \u{a7}4red"), "\u{a7}4 gives red");
}

#[test]
fn clean_strips_hex_codes() {
    let d = Dahlia::new(Some(Depth::Low), false, '&');
    assert_eq!(d.clean("&#aaa;underlined&R"), "underlined");
}

#[test]
fn clean_handles_weird_markers() {
    for marker in ['$', '^', '?', '(', ')', '\\', '/', '[', ']', '*', '+', '.'] {
        let d = Dahlia::new(Some(Depth::Low), false, marker);
        let input = format!("{}4foo{}_2bar", marker, marker);
        let expected = format!("foo{}2bar", marker);
        assert_eq!(d.clean(&input), expected, "marker {:?}", marker);
    }
}

#[test]
fn clean_emits_no_ansi_at_high_depth() {
    let d = Dahlia::new(Some(Depth::High), false, '&');
    assert_eq!(d.clean("&aHello &cWorld"), "Hello World");
}

#[test]
fn clean_shares_the_auto_reset_step() {
    // The finalize step is shared between convert and clean, so with
    // auto-reset on, clean appends the trailing full reset too.
    let d = Dahlia::new(Some(Depth::Low), true, '&');
    assert_eq!(d.clean("&2>be me"), ">be me\x1b[0m");
}

#[test]
fn clean_matches_convert_at_depth_none() {
    let with_codes = "&e&nunderlined&R &~eyellow &#f0f;pink &_4literal";
    for auto_reset in [false, true] {
        let d = Dahlia::new(None, auto_reset, '&');
        assert_eq!(d.convert(with_codes), d.clean(with_codes));
    }
}

#[test]
fn clean_ansi_strips_rgb_sequence() {
    assert_eq!(clean_ansi("\x1b[38;2;255;0;255mpink"), "pink");
}

#[test]
fn clean_ansi_strips_what_convert_emits() {
    let d = Dahlia::new(Some(Depth::High), false, '&');
    let green_text = d.convert("&2>be me");
    assert_eq!(clean_ansi(&green_text), ">be me");
}

#[test]
fn clean_ansi_underlined_yellow() {
    assert_eq!(clean_ansi("\x1b[93m\x1b[4munderlined\x1b[0m yellow"), "underlined yellow");
}

#[test]
fn clean_ansi_underlined_yellow_rgb() {
    assert_eq!(
        clean_ansi("\x1b[38;2;255;255;85m\x1b[4munderlined\x1b[0m yellow"),
        "underlined yellow"
    );
}

#[test]
fn clean_ansi_keeps_invalid_escape() {
    assert_eq!(clean_ansi("\x1bxxx"), "\x1bxxx");
}

#[test]
fn clean_ansi_keeps_invalid_escape_code() {
    assert_eq!(clean_ansi("\x1b[xm"), "\x1b[xm");
}

#[test]
fn clean_ansi_strips_bel_terminated_sequence() {
    assert_eq!(clean_ansi("\x1b]0;title\x07rest"), "rest");
}

#[test]
fn clean_ansi_leaves_plain_text() {
    assert_eq!(clean_ansi("just words, no escapes"), "just words, no escapes");
}
