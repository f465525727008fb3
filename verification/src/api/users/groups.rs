pub mod transfer;
