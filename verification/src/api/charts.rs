pub mod drive;
