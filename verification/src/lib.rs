pub mod boundary;
pub mod cursor;
pub mod driver;
pub mod encoding;
pub mod eager;
pub mod full;
pub mod errors;
pub mod machine;
pub mod state_machine;
pub mod tag_name;
pub mod text_chunk;
pub mod tree_builder_simulator;
