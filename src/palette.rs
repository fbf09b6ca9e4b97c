use vstd::prelude::*;

verus! {

/// Name of the display color of a color index; any index past the seven piece
/// colors is shown as white.
pub open spec fn color_name_of(color: u8) -> Seq<char> {
    if color == 0 {
        "cyan"@
    } else if color == 1 {
        "yellow"@
    } else if color == 2 {
        "purple"@
    } else if color == 3 {
        "blue"@
    } else if color == 4 {
        "orange"@
    } else if color == 5 {
        "green"@
    } else if color == 6 {
        "red"@
    } else {
        "white"@
    }
}

/// Display color of a color index, as a CSS color name.
pub fn color_name(color: u8) -> (r: &'static str)
    ensures
        r@ == color_name_of(color),
{
    match color {
        0 => "cyan",
        1 => "yellow",
        2 => "purple",
        3 => "blue",
        4 => "orange",
        5 => "green",
        6 => "red",
        _ => "white",
    }
}

} // verus!
