//! Query the same kind of resource across many independently configured
//! cluster endpoints in one call: resolve a short, user-typed resource name
//! into a fully qualified descriptor and scope (preferring an on-disk
//! discovery cache, with a live fallback), fan the list request out to every
//! configured cluster, and collect whatever succeeded.
pub mod config;
pub mod discovery;
pub mod errors;
pub mod json;
pub mod kubeconfig;
pub mod live;
pub mod output;
pub mod pipeline;
pub mod strutil;
