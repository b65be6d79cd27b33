//! The puzzles, one module each.

pub mod eight;
pub mod eleven;
pub mod fifteen;
pub mod five;
pub mod four;
pub mod fourteen;
pub mod nine;
pub mod nineteen;
pub mod one;
pub mod seven;
pub mod six;
pub mod seventeen;
pub mod sixteen;
pub mod ten;
pub mod thirteen;
pub mod three;
pub mod twelve;
pub mod twentyfive;
pub mod twentytwo;
pub mod two;
