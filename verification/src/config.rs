//! The settings of a load run.

use crate::dispatch::DispatchState;
use crate::dispatch::Dispatcher;
use vstd::prelude::*;

verus! {

/// The endpoint that a run measures unless told otherwise.
pub const DEFAULT_URL: &'static str = "https://wagmi-challenge-1-production.up.railway.app/wagmi";

/// The body that each request carries unless told otherwise.
pub const DEFAULT_BODY: &'static str = "{\"a\": 5, \"b\": 10}";

/// How many requests a run makes unless told otherwise.
pub const DEFAULT_TOTAL_REQUESTS: usize = 10_000;

/// How many requests are under way at once unless told otherwise.
pub const DEFAULT_CONCURRENCY: usize = 2_500;

/// How long a request may take, in milliseconds, unless told otherwise.
pub const DEFAULT_TIMEOUT_MILLIS: u64 = 10_000;

/// How long a run waits before its first request, in milliseconds, unless
/// told otherwise.
pub const DEFAULT_WARMUP_MILLIS: u64 = 100;

/// The settings of a load run.
#[derive(Clone, Debug, PartialEq, Eq)]
pub struct LoadConfig {
    /// The address that every request goes to.
    pub url: String,
    /// The JSON text that every request carries.
    pub body: String,
    /// How many requests the run makes.
    pub total_requests: usize,
    /// How many requests may be under way at once.
    pub concurrency: usize,
    /// After how many milliseconds a request is given up as failed.
    pub timeout_millis: u64,
    /// How many milliseconds pass before the first request. They are no
    /// part of the time that the run is measured by.
    pub warmup_millis: u64,
}

impl LoadConfig {
    /// The settings with every default.
    pub fn standard() -> (config: Self)
        ensures
            config.url@ == DEFAULT_URL@,
            config.body@ == DEFAULT_BODY@,
            config.total_requests == DEFAULT_TOTAL_REQUESTS,
            config.concurrency == DEFAULT_CONCURRENCY,
            config.timeout_millis == DEFAULT_TIMEOUT_MILLIS,
            config.warmup_millis == DEFAULT_WARMUP_MILLIS,
    {
        LoadConfig {
            url: DEFAULT_URL.to_owned(),
            body: DEFAULT_BODY.to_owned(),
            total_requests: DEFAULT_TOTAL_REQUESTS,
            concurrency: DEFAULT_CONCURRENCY,
            timeout_millis: DEFAULT_TIMEOUT_MILLIS,
            warmup_millis: DEFAULT_WARMUP_MILLIS,
        }
    }

    /// The dispatcher of a run with these settings, before its first
    /// request. There is none where the settings admit no request under way.
    pub fn dispatcher(&self) -> (dispatcher: Option<Dispatcher>)
        ensures
            dispatcher is Some <==> self.concurrency > 0,
            dispatcher matches Some(d) ==> d.wf() && d@ == (DispatchState {
                total: self.total_requests as nat,
                limit: self.concurrency as nat,
                outstanding: Seq::empty(),
                records: Seq::empty(),
            }) && d@.in_flight() == 0,
    {
        Dispatcher::new(self.total_requests, self.concurrency)
    }
}

} // verus!
