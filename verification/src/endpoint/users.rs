pub mod lists;
