pub mod app;
pub mod config;
pub mod federated;
pub mod ingest;
pub mod lexical;
pub mod logging;
pub mod metadata;
pub mod metrics;
pub mod pool;
pub mod protocol;
pub mod routing;
pub mod scan;
pub mod stream;
pub mod text;
