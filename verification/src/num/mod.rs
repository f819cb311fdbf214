//! Binary floating-point numbers as bit patterns, with verified arithmetic.

pub mod bits;
pub mod decimal;
pub mod decimal_laws;
pub mod double;
pub mod laws;
pub mod model;
pub mod natural;
pub mod pack;
pub mod rational;
pub mod round;
pub mod single;

pub use double::Double;
pub use single::Single;
