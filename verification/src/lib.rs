use vstd::prelude::*;

pub mod bytes;
pub mod mode;
pub mod packet;
pub mod text;
pub mod hexfmt;
pub mod queue;
pub mod peers;
pub mod node;
pub mod drivers;
