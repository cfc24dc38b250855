//! Text handling and colours shared by the other modules.

pub mod color;
pub mod text;
