pub mod changelog;
pub mod git;
pub mod helpers;
pub mod msg;
pub mod pattern;
pub mod project_config;
pub mod text;
pub mod version;
