//! Release automation for a versioned source tree: the version state, the
//! branch and merge decisions, the commit and tag plan, and the changelog
//! release chain. The library decides and computes; reading and writing the
//! repository and the file system is left to the caller.

pub mod commands;
pub mod libs;
