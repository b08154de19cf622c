pub mod text;
pub mod interop;
pub mod models;
pub mod key_cache;
pub mod tf;
pub mod mtc;
pub mod crawl;
pub mod laws;
pub mod view;
pub mod scheduler;
