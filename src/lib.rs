//! Resolution of the safe call-stack address range of a firmware image on a
//! microcontroller target.

pub mod range;
pub mod memory;
pub mod stack;
pub mod target;
