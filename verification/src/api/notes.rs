pub mod reactions;
