//! The per-invocation context handed to handlers next to the request.

use crate::json::{path_get, split_dots, Json};
use crate::strmap::{inserted, lookup, StrMap};
use std::time::{Duration, SystemTime};
use vstd::prelude::*;

verus! {

#[verifier::external_type_specification]
#[verifier::external_body]
pub struct ExSystemTime(std::time::SystemTime);

/// What a [`Context`] holds.
pub ghost struct ContextView {
    pub request_id: Seq<char>,
    pub function_name: Seq<char>,
    pub function_version: Seq<char>,
    pub memory_limit: Option<u32>,
    pub remaining_time: Option<Duration>,
    pub deadline: Option<SystemTime>,
    pub env_vars: Seq<(String, String)>,
    pub platform_data: Json,
}

/// Identifiers of one invocation, optional resource bounds, environment
/// variables and the platform's native context.
#[derive(Debug)]
pub struct Context {
    request_id: String,
    function_name: String,
    function_version: String,
    memory_limit: Option<u32>,
    remaining_time: Option<Duration>,
    deadline: Option<SystemTime>,
    env_vars: StrMap<String>,
    platform_data: Json,
}

impl View for Context {
    type V = ContextView;

    closed spec fn view(&self) -> ContextView {
        ContextView {
            request_id: self.request_id@,
            function_name: self.function_name@,
            function_version: self.function_version@,
            memory_limit: self.memory_limit,
            remaining_time: self.remaining_time,
            deadline: self.deadline,
            env_vars: self.env_vars@,
            platform_data: self.platform_data,
        }
    }
}

impl Context {
    /// Empty identifiers, no bounds, no environment variables, null native context.
    pub fn new() -> (r: Context)
        ensures
            r@.request_id.len() == 0,
            r@.function_name.len() == 0,
            r@.function_version.len() == 0,
            r@.memory_limit is None,
            r@.remaining_time is None,
            r@.deadline is None,
            r@.env_vars.len() == 0,
            r@.platform_data is Null,
    {
        Context {
            request_id: String::new(),
            function_name: String::new(),
            function_version: String::new(),
            memory_limit: None,
            remaining_time: None,
            deadline: None,
            env_vars: StrMap::new(),
            platform_data: Json::Null,
        }
    }

    /// The request id.
    pub fn request_id(&self) -> (r: &str)
        ensures
            r@ == self@.request_id,
    {
        self.request_id.as_str()
    }

    /// The same context with another request id.
    pub fn with_request_id(self, request_id: &str) -> (r: Context)
        ensures
            r@ == (ContextView { request_id: request_id@, ..self@ }),
    {
        Context { request_id: request_id.to_owned(), ..self }
    }

    /// The function name.
    pub fn function_name(&self) -> (r: &str)
        ensures
            r@ == self@.function_name,
    {
        self.function_name.as_str()
    }

    /// The same context with another function name.
    pub fn with_function_name(self, function_name: &str) -> (r: Context)
        ensures
            r@ == (ContextView { function_name: function_name@, ..self@ }),
    {
        Context { function_name: function_name.to_owned(), ..self }
    }

    /// The function version or alias.
    pub fn function_version(&self) -> (r: &str)
        ensures
            r@ == self@.function_version,
    {
        self.function_version.as_str()
    }

    /// The same context with another function version.
    pub fn with_function_version(self, function_version: &str) -> (r: Context)
        ensures
            r@ == (ContextView { function_version: function_version@, ..self@ }),
    {
        Context { function_version: function_version.to_owned(), ..self }
    }

    /// The memory limit in MB, if known.
    pub fn memory_limit(&self) -> (r: Option<u32>)
        ensures
            r == self@.memory_limit,
    {
        self.memory_limit
    }

    /// The same context with memory limit `memory_limit`.
    pub fn with_memory_limit(self, memory_limit: u32) -> (r: Context)
        ensures
            r@ == (ContextView { memory_limit: Some(memory_limit), ..self@ }),
    {
        Context { memory_limit: Some(memory_limit), ..self }
    }

    /// The remaining execution time, if known.
    pub fn remaining_time(&self) -> (r: Option<Duration>)
        ensures
            r == self@.remaining_time,
    {
        self.remaining_time
    }

    /// The same context with remaining time `remaining_time`.
    pub fn with_remaining_time(self, remaining_time: Duration) -> (r: Context)
        ensures
            r@ == (ContextView { remaining_time: Some(remaining_time), ..self@ }),
    {
        Context { remaining_time: Some(remaining_time), ..self }
    }

    /// The execution deadline, if known.
    pub fn deadline(&self) -> (r: Option<SystemTime>)
        ensures
            r == self@.deadline,
    {
        self.deadline
    }

    /// The same context with deadline `deadline`.
    pub fn with_deadline(self, deadline: SystemTime) -> (r: Context)
        ensures
            r@ == (ContextView { deadline: Some(deadline), ..self@ }),
    {
        Context { deadline: Some(deadline), ..self }
    }

    /// The environment variables.
    pub fn env_vars(&self) -> (r: &StrMap<String>)
        ensures
            r@ == self@.env_vars,
    {
        &self.env_vars
    }

    /// The same context with environment variable `name` set to `value`.
    pub fn with_env_var(self, name: &str, value: &str) -> (r: Context)
        ensures
            exists|k: String, v: String|
                k@ == name@ && v@ == value@ && r@ == (ContextView {
                    env_vars: inserted(self@.env_vars, k, v),
                    ..self@
                }),
    {
        let mut r = self;
        let k = name.to_owned();
        let v = value.to_owned();
        let ghost (gk, gv) = (k, v);
        r.env_vars.insert(k, v);
        assert(r@ == (ContextView { env_vars: inserted(self@.env_vars, gk, gv), ..self@ }));
        r
    }

    /// The value of environment variable `name`.
    pub fn env_var(&self, name: &str) -> (r: Option<&String>)
        ensures
            match r {
                Some(v) => lookup(self@.env_vars, name@) == Some(*v),
                None => lookup(self@.env_vars, name@) is None,
            },
    {
        self.env_vars.get(name)
    }

    /// The native context.
    pub fn platform_data(&self) -> (r: &Json)
        ensures
            *r == self@.platform_data,
    {
        &self.platform_data
    }

    /// The same context with another native context.
    pub fn with_platform_data(self, platform_data: Json) -> (r: Context)
        ensures
            r@ == (ContextView { platform_data, ..self@ }),
    {
        Context { platform_data, ..self }
    }

    /// The part of the native context at a dot-separated path of object keys
    /// ("aws.function.arn"); `None` where a key is missing or a step is not an
    /// object.
    pub fn get_platform_data(&self, path: &str) -> (r: Option<&Json>)
        ensures
            match r {
                Some(x) => path_get(self@.platform_data@, split_dots(path@), 0) == Some(x@),
                None => path_get(self@.platform_data@, split_dots(path@), 0) is None,
            },
    {
        self.platform_data.get_dotted(path)
    }
}

impl Default for Context {
    fn default() -> (r: Context)
        ensures
            r@.request_id.len() == 0,
            r@.function_name.len() == 0,
            r@.function_version.len() == 0,
            r@.memory_limit is None,
            r@.remaining_time is None,
            r@.deadline is None,
            r@.env_vars.len() == 0,
            r@.platform_data is Null,
    {
        Context::new()
    }
}

} // verus!
