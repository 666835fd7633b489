//! The fixed palette of sixteen named colors.

use vstd::prelude::*;

verus! {

/// An RGBA color, eight bits per channel.
#[derive(Clone, Copy, Debug, PartialEq, Eq, Structural)]
pub struct Color {
    pub r: u8,
    pub g: u8,
    pub b: u8,
    pub a: u8,
}

/// Number of palette entries.
pub const PALETTE_LEN: usize = 16;

/// Shorthand for an opaque color.
pub open spec fn rgb(r: u8, g: u8, b: u8) -> Color {
    Color { r, g, b, a: 255 }
}

/// The palette, in its fixed order.
pub open spec fn palette() -> Seq<Color> {
    seq![
        rgb(25, 25, 25),
        rgb(76, 76, 76),
        rgb(153, 153, 153),
        rgb(255, 255, 255),
        rgb(242, 127, 165),
        rgb(178, 76, 216),
        rgb(127, 63, 178),
        rgb(51, 76, 178),
        rgb(76, 127, 153),
        rgb(102, 153, 216),
        rgb(102, 127, 51),
        rgb(127, 204, 25),
        rgb(229, 229, 51),
        rgb(216, 127, 51),
        rgb(102, 76, 51),
        rgb(153, 51, 51),
    ]
}

/// The display names of the palette entries, in palette order.
pub open spec fn palette_names() -> Seq<Seq<char>> {
    seq![
        "Black"@,
        "Dark Grey"@,
        "Grey"@,
        "White"@,
        "Pink"@,
        "Magenta"@,
        "Purple"@,
        "Blue"@,
        "Cyan"@,
        "Light Blue"@,
        "Green"@,
        "Lime"@,
        "Yellow"@,
        "Orange"@,
        "Brown"@,
        "Red"@,
    ]
}

/// Whether `c` is one of the palette's colors.
pub open spec fn in_palette(c: Color) -> bool {
    exists|i: int| 0 <= i < 16 && #[trigger] palette()[i] == c
}

/// The position of `c` in the palette: the least index that holds it.
pub open spec fn index_of(c: Color) -> int
    recommends
        in_palette(c),
{
    choose|i: int|
        0 <= i < 16 && #[trigger] palette()[i] == c && forall|j: int|
            0 <= j < i ==> #[trigger] palette()[j] != c
}

/// No color occurs twice in the palette.
pub proof fn palette_is_injective()
    ensures
        palette().len() == 16,
        forall|i: int, j: int|
            0 <= i < 16 && 0 <= j < 16 && #[trigger] palette()[i] == #[trigger] palette()[j] ==> i
                == j,
{
    let p = palette();
    assert(p.len() == 16);
    assert(p[0] == rgb(25, 25, 25) && p[1] == rgb(76, 76, 76) && p[2] == rgb(153, 153, 153) && p[3]
        == rgb(255, 255, 255));
    assert(p[4] == rgb(242, 127, 165) && p[5] == rgb(178, 76, 216) && p[6] == rgb(127, 63, 178)
        && p[7] == rgb(51, 76, 178));
    assert(p[8] == rgb(76, 127, 153) && p[9] == rgb(102, 153, 216) && p[10] == rgb(102, 127, 51)
        && p[11] == rgb(127, 204, 25));
    assert(p[12] == rgb(229, 229, 51) && p[13] == rgb(216, 127, 51) && p[14] == rgb(102, 76, 51)
        && p[15] == rgb(153, 51, 51));
}

/// `index_of` names the one palette position that holds a palette color.
pub proof fn index_of_palette(i: int)
    requires
        0 <= i < 16,
    ensures
        in_palette(palette()[i]),
        index_of(palette()[i]) == i,
{
    palette_is_injective();
    let c = palette()[i];
    assert(in_palette(c));
    assert(0 <= i < 16 && palette()[i] == c && forall|j: int|
        0 <= j < i ==> #[trigger] palette()[j] != c);
}

/// The palette entry at position `i`.
pub fn palette_color(i: usize) -> (c: Color)
    requires
        i < 16,
    ensures
        c == palette()[i as int],
        in_palette(c),
{
    let c = match i {
        0 => Color { r: 25, g: 25, b: 25, a: 255 },
        1 => Color { r: 76, g: 76, b: 76, a: 255 },
        2 => Color { r: 153, g: 153, b: 153, a: 255 },
        3 => Color { r: 255, g: 255, b: 255, a: 255 },
        4 => Color { r: 242, g: 127, b: 165, a: 255 },
        5 => Color { r: 178, g: 76, b: 216, a: 255 },
        6 => Color { r: 127, g: 63, b: 178, a: 255 },
        7 => Color { r: 51, g: 76, b: 178, a: 255 },
        8 => Color { r: 76, g: 127, b: 153, a: 255 },
        9 => Color { r: 102, g: 153, b: 216, a: 255 },
        10 => Color { r: 102, g: 127, b: 51, a: 255 },
        11 => Color { r: 127, g: 204, b: 25, a: 255 },
        12 => Color { r: 229, g: 229, b: 51, a: 255 },
        13 => Color { r: 216, g: 127, b: 51, a: 255 },
        14 => Color { r: 102, g: 76, b: 51, a: 255 },
        _ => Color { r: 153, g: 51, b: 51, a: 255 },
    };
    proof {
        palette_is_injective();
    }
    c
}

/// The display name of the palette entry at position `i`.
pub fn palette_name(i: usize) -> (name: &'static str)
    requires
        i < 16,
    ensures
        name@ == palette_names()[i as int],
{
    match i {
        0 => "Black",
        1 => "Dark Grey",
        2 => "Grey",
        3 => "White",
        4 => "Pink",
        5 => "Magenta",
        6 => "Purple",
        7 => "Blue",
        8 => "Cyan",
        9 => "Light Blue",
        10 => "Green",
        11 => "Lime",
        12 => "Yellow",
        13 => "Orange",
        14 => "Brown",
        _ => "Red",
    }
}

/// Finds `c` in the palette: `Some` of its position exactly when the palette
/// holds it.
pub fn palette_index(c: Color) -> (found: Option<usize>)
    ensures
        found.is_some() <==> in_palette(c),
        found matches Some(i) ==> i < 16 && palette()[i as int] == c && i as int == index_of(c),
{
    let mut i: usize = 0;
    while i < 16
        invariant
            i <= 16,
            forall|j: int| 0 <= j < i ==> #[trigger] palette()[j] != c,
        decreases 16 - i,
    {
        let p = palette_color(i);
        if p == c {
            proof {
                index_of_palette(i as int);
            }
            return Some(i);
        }
        i += 1;
    }
    None
}

/// The display name of `c`, if the palette holds it.
pub fn get_color_name(c: Color) -> (name: Option<&'static str>)
    ensures
        name.is_some() <==> in_palette(c),
        name matches Some(s) ==> s@ == palette_names()[index_of(c)],
{
    match palette_index(c) {
        Some(i) => Some(palette_name(i)),
        None => None,
    }
}

} // verus!
