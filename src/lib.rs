//! Semantic engine for a SysML-style modelling language: a per-file symbol
//! table and scope tree, an import- and alias-aware resolver, a reference
//! index and an incremental analysis host, all verified.
pub mod analysis;
pub mod builder;
pub mod diagram;
pub mod host;
pub mod index;
pub mod model;
pub mod queries;
pub mod resolve;
pub mod text;
pub mod tokens;
pub mod type_info;
pub mod uri;
