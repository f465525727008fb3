pub mod unlike;
