//! Layered configuration resolution: the final value of each schema field is
//! computed by merging command-line arguments, an optional YAML configuration
//! file, environment variables and compiled-in defaults, under the fixed
//! precedence `explicit CLI > environment > file > default`.
pub mod cli;
pub mod laws;
pub mod mirror;
pub mod resolve;
pub mod scalar;
pub mod schema;
pub mod sources;
pub mod text;
