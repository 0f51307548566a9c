pub mod cursor;
pub mod database;
pub mod table;
pub mod transaction;
