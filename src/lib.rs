//! Secure fetch, verify and install of prebuilt binaries: the decisions of
//! the pipeline, proved against their contracts.

pub mod types;
pub mod policy;
pub mod manifest;
pub mod verify;
pub mod trust;
pub mod install;
pub mod request;
pub mod pipeline;
