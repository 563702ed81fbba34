pub mod coin;
pub mod grid;
pub mod mine;
pub mod race;
pub mod randomizer;
pub mod snake;
