pub mod groups;
