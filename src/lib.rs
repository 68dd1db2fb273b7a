pub mod math;
pub mod noise;
pub mod terrain;
pub mod time;
pub mod traversal;
pub mod world;
