use dahlia::{Depth, InferrenceResult};

#[test]
fn weights_name_the_color_precision() {
    assert_eq!(Depth::Tty.weight(), 3);
    assert_eq!(Depth::Low.weight(), 4);
    assert_eq!(Depth::Medium.weight(), 8);
    assert_eq!(Depth::High.weight(), 24);
}

#[test]
fn depths_come_back_from_their_weights() {
    assert_eq!(Depth::try_from_weight(3), Some(Depth::Tty));
    assert_eq!(Depth::try_from_weight(4), Some(Depth::Low));
    assert_eq!(Depth::try_from_weight(8), Some(Depth::Medium));
    assert_eq!(Depth::try_from_weight(24), Some(Depth::High));
    assert_eq!(Depth::try_from_weight(16), None);
}

#[test]
fn depths_come_back_from_their_names() {
    assert_eq!(Depth::try_from_name("3"), Some(Depth::Tty));
    assert_eq!(Depth::try_from_name("tty"), Some(Depth::Tty));
    assert_eq!(Depth::try_from_name("TTY"), Some(Depth::Tty));
    assert_eq!(Depth::try_from_name("4"), Some(Depth::Low));
    assert_eq!(Depth::try_from_name("Low"), Some(Depth::Low));
    assert_eq!(Depth::try_from_name("8"), Some(Depth::Medium));
    assert_eq!(Depth::try_from_name("MEDIUM"), Some(Depth::Medium));
    assert_eq!(Depth::try_from_name("24"), Some(Depth::High));
    assert_eq!(Depth::try_from_name("high"), Some(Depth::High));
    assert_eq!(Depth::try_from_name("guess"), None);
    assert_eq!(Depth::try_from_name(""), None);
    assert_eq!(Depth::try_from_name("25"), None);
}

#[test]
fn inferrence_result_carries_a_depth_or_none() {
    let colored = InferrenceResult::Color(Depth::High);
    assert_eq!(colored, InferrenceResult::Color(Depth::High));
    assert_ne!(colored, InferrenceResult::NoColor);
}
