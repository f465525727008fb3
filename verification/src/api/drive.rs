pub mod folders;
