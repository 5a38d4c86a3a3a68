//! The colors that scripts know by name.

use vstd::prelude::*;
use vstd::string::StringExecFns;

verus! {

/// A color that has a name.
#[derive(Clone, Copy, Debug, PartialEq, Eq, Structural)]
pub enum NamedColor {
    Black,
    White,
    Red,
    Green,
    Blue,
}

/// The color that `name` stands for, if it stands for one. Names are written
/// in lower case.
pub open spec fn color_named(name: Seq<char>) -> Option<NamedColor> {
    if name == "black"@ {
        Some(NamedColor::Black)
    } else if name == "white"@ {
        Some(NamedColor::White)
    } else if name == "red"@ {
        Some(NamedColor::Red)
    } else if name == "green"@ {
        Some(NamedColor::Green)
    } else if name == "blue"@ {
        Some(NamedColor::Blue)
    } else {
        None
    }
}

/// The color that `color_name` stands for, if it stands for one.
pub fn color_from_name(color_name: &str) -> (color: Option<NamedColor>)
    ensures
        color == color_named(color_name@),
{
    let name = color_name.to_owned();
    if name == String::from_str("black") {
        Some(NamedColor::Black)
    } else if name == String::from_str("white") {
        Some(NamedColor::White)
    } else if name == String::from_str("red") {
        Some(NamedColor::Red)
    } else if name == String::from_str("green") {
        Some(NamedColor::Green)
    } else if name == String::from_str("blue") {
        Some(NamedColor::Blue)
    } else {
        None
    }
}

} // verus!
