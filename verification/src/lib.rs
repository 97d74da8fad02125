//! Code generation and runtime composition for a JavaScript module bundler.
//!
//! The crate covers three pieces of the pipeline that turns a resolved module
//! graph into emitted text:
//!
//! * the shared generation state (runtime requirements and init fragments) and
//!   the way its fragments are ordered, deduplicated and rendered,
//! * the dependency template that marks a module's exports as a namespace
//!   object and wraps asynchronous modules in an async boundary,
//! * the resolution of import requests against the configured externals,
//!   including externals that are decided by a host callback.
//!
//! Every function is verified against the contract written on it, with one
//! exception: `pattern::test_pattern` calls the regular-expression engine,
//! and its contract is taken on trust.

pub mod export_webpack_require;
pub mod external;
pub mod external_laws;
pub mod fragment_laws;
pub mod harmony_compatibility_dependency;
pub mod init_fragment;
pub mod module_graph;
pub mod pattern;
pub mod raw_external;
pub mod runtime_globals;
pub mod runtime_module;
pub mod template_context;
pub mod template_replace_source;
