//! Model file formats and the resource limits applied while reading them.
pub mod gguf;
pub mod limits;
