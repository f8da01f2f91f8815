//! A platform-neutral serverless function model: one canonical request,
//! response and context, self-describing metadata, an exact-match router and
//! the adapter protocol that turns a platform's native events and replies into
//! and out of the canonical model.

pub mod adapter;
pub mod codec;
pub mod context;
pub mod error;
pub mod info;
pub mod json;
pub mod request;
pub mod requirements;
pub mod response;
pub mod router;
pub mod strmap;

pub use adapter::{Adapter, EncodingMark, Outcome, Platform, Step};
pub use context::Context;
pub use error::{Error, ErrorKind, Result};
pub use info::{
    check_info_flag, handle_info_request, parse_info_args, FunctionInfo, InfoFlags, OutputFormat,
    RouteInfo,
};
pub use json::Json;
pub use request::{Method, Request, Uri};
pub use requirements::{Requirements, Resource};
pub use response::Response;
pub use router::{BuildRouter, Handler, Router, RouterBuilder};
pub use strmap::StrMap;

pub use serde_json::Value;

use vstd::prelude::*;

verus! {

/// Version of the framework.
pub const VERSION: &'static str = "0.1.0";

} // verus!
