use vstd::prelude::*;

verus! {

/// How a selector is matched against the page.
#[derive(Debug, Clone, Copy, PartialEq, Eq, Structural)]
pub enum By {
    Css,
    Id,
    XPath,
}

/// One browser automation step. Durations are whole milliseconds; a
/// standard deviation is signed so that an ill-formed one can be refused.
#[derive(Debug, Clone)]
pub enum Instruction {
    /// Navigate to a URL; when `critical`, a failure is fatal.
    Navigate { url: String, critical: Option<bool> },
    /// Click one element found by `selector`.
    Click {
        selector: String,
        /// Selector kind: "css" (the default), "id" or "xpath"
        by: Option<String>,
        /// Lookup timeout in whole seconds (10 when unset)
        timeout: Option<u64>,
        /// Pause after the click
        delay_ms: Option<u64>,
        /// Standard deviation of the pause
        delay_stdev_ms: Option<i64>,
        /// Treat a lookup that fails or times out as a no-op
        ignore_errors: Option<bool>,
    },
    /// Pause, optionally drawn from a normal distribution around `millis`.
    Wait { millis: u64, stdev_ms: Option<i64> },
    /// Scroll the page down by `amount` pixels (100 when unset).
    Scroll { amount: Option<i64> },
    /// Click an element picked at random among those found by `selector`.
    RandomClick {
        selector: String,
        by: Option<String>,
        /// Candidates whose text holds one of these are left out
        exclude_text: Option<Vec<String>>,
        timeout: Option<u64>,
        /// Click again and again until no candidate remains
        exhaustive: Option<bool>,
        delay_ms: Option<u64>,
        delay_stdev_ms: Option<i64>,
    },
}

/// A stored browser cookie.
#[derive(Debug, Clone)]
pub struct Cookie {
    pub name: String,
    pub value: String,
    pub domain: Option<String>,
    pub path: Option<String>,
    pub secure: Option<bool>,
    pub http_only: Option<bool>,
    /// Expiration, in seconds since the epoch
    pub expiry: Option<u64>,
}

/// Why an action, or the run of a domain, stopped.
#[derive(Debug, Clone, Copy, PartialEq, Eq, Structural)]
pub enum ExecutionError {
    /// A jitter was asked for with a negative standard deviation.
    InvalidDistributionParameters,
    /// The element lookup reported an error.
    ElementLookupFailed,
    /// The element lookup did not finish within its timeout.
    ElementLookupTimedOut,
    /// A click or scroll script failed in the browser.
    ScriptExecutionFailed,
    /// A navigation that is not critical failed.
    NavigationFailed,
    /// A navigation marked critical failed.
    CriticalNavigationFailed,
    /// Cookies could not be synchronised.
    CookieSyncFailed,
    /// The instruction file could not be read or parsed.
    InstructionsUnreadable,
    /// A loop range ends before it starts.
    InvalidLoopRange,
    /// The driver answered a command with an event of another kind.
    UnexpectedEvent,
}

} // verus!
