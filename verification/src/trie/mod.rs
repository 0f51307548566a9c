pub mod changesets;
pub mod history;
pub mod updates;
