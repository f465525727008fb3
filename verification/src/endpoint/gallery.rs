pub mod posts;
