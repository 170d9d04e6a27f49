pub mod buffer;
pub mod cursor;
pub mod input;
pub mod reg;
pub mod ui;
pub mod undotree;
