use tetris_core::palette::color_name;

#[test]
fn color_names_follow_table() {
    assert_eq!(color_name(0), "cyan");
    assert_eq!(color_name(1), "yellow");
    assert_eq!(color_name(2), "purple");
    assert_eq!(color_name(3), "blue");
    assert_eq!(color_name(4), "orange");
    assert_eq!(color_name(5), "green");
    assert_eq!(color_name(6), "red");
}

#[test]
fn out_of_range_color_is_white() {
    assert_eq!(color_name(7), "white");
    assert_eq!(color_name(255), "white");
}
