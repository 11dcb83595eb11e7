//! Neural-network building blocks: layer markers, initialization context,
//! attention path selection and module metadata.
pub mod activation;
pub mod attention;
pub mod feed_forward;
pub mod flatten;
pub mod module;
pub mod moe;
pub mod init;
pub mod kv_cache;
pub mod loss;
pub mod optional;
pub mod param;
