pub mod app;
pub mod app_laws;
pub mod cache;
pub mod git;
pub mod github;
pub mod model;
pub mod order;
pub mod path_set;
pub mod repo;
pub mod scan;
pub mod scan_laws;
pub mod seq_util;
pub mod text;
pub mod url;
pub mod zones;
