pub mod charts;
pub mod drive;
pub mod notes;
pub mod users;
