//! Request screening, caching, rate limiting and upstream fault handling for
//! an online code playground, with their behaviour stated as Verus contracts.
pub mod text;
pub mod digest;
pub mod headers;
pub mod clock;
pub mod security;
pub mod circuit_breaker;
pub mod maps;
pub mod rate_limit;
pub mod cache;
pub mod go_proxy;
pub mod js_runner;
pub mod errors;
pub mod examples;
pub mod pipeline;
