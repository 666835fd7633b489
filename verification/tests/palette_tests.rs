use banner_ga::palette::{get_color_name, palette_color, palette_index, Color};

#[test]
fn palette_names_follow_palette_order() {
    assert_eq!(get_color_name(palette_color(0)), Some("Black"));
    assert_eq!(get_color_name(palette_color(9)), Some("Light Blue"));
    assert_eq!(get_color_name(palette_color(15)), Some("Red"));
}

#[test]
fn color_outside_palette_has_no_name() {
    let c = Color { r: 1, g: 2, b: 3, a: 255 };
    assert_eq!(get_color_name(c), None);
    assert_eq!(palette_index(c), None);
}
