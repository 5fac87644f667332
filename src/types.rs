use vstd::prelude::*;

verus! {

/// Position of a block in the chain.
pub type BlockHeight = u64;

/// One log entry extracted from a block: the block it came from and its
/// position among that block's entries.
#[derive(Clone, Copy, Debug, PartialEq, Eq, Structural)]
pub struct Log {
    pub height: BlockHeight,
    pub index: u64,
}

/// Why a fetch failed.
#[derive(Clone, Copy, Debug, PartialEq, Eq, Structural)]
pub enum FetchError {
    /// A timeout or a temporary unavailability: worth another attempt.
    Transient,
    /// Malformed data, an unknown height, an undecodable block: final.
    Permanent,
}

/// The outcome for one requested height.
#[derive(Clone, Debug)]
pub enum BlockResult {
    Success { height: BlockHeight, logs: Vec<Log> },
    Failure { height: BlockHeight, error: FetchError },
}

impl BlockResult {
    pub open spec fn spec_height(&self) -> BlockHeight {
        match self {
            BlockResult::Success { height, .. } => *height,
            BlockResult::Failure { height, .. } => *height,
        }
    }

    /// The height this result belongs to.
    pub fn height(&self) -> (r: BlockHeight)
        ensures
            r == self.spec_height(),
    {
        match self {
            BlockResult::Success { height, .. } => *height,
            BlockResult::Failure { height, .. } => *height,
        }
    }

    pub fn is_success(&self) -> (r: bool)
        ensures
            r == (self is Success),
    {
        match self {
            BlockResult::Success { .. } => true,
            BlockResult::Failure { .. } => false,
        }
    }
}

/// An error that ends a whole scan before it starts.
#[derive(Clone, Copy, Debug, PartialEq, Eq, Structural)]
pub enum ScanError {
    /// The concurrency limit was zero.
    ZeroConcurrency,
    /// A list of heights was not strictly increasing.
    UnorderedHeights,
}

pub const DEFAULT_CONCURRENCY: usize = 8;

pub const DEFAULT_RETRY_BUDGET: u32 = 3;

/// How many fetches may be in the window at once, and how many attempts a
/// height gets when its fetches fail transiently.
#[derive(Clone, Copy, Debug, PartialEq, Eq, Structural)]
pub struct ScanConfig {
    pub concurrency_limit: usize,
    pub retry_budget: u32,
}

impl ScanConfig {
    pub open spec fn valid(&self) -> bool {
        self.concurrency_limit > 0
    }

    /// The number of attempts a height gets: the retry budget, and never
    /// fewer than the first attempt.
    pub open spec fn max_attempts(&self) -> nat {
        if self.retry_budget == 0 {
            1
        } else {
            self.retry_budget as nat
        }
    }

    /// A configuration, refused when the concurrency limit is zero.
    pub fn new(concurrency_limit: usize, retry_budget: u32) -> (r: Result<ScanConfig, ScanError>)
        ensures
            concurrency_limit == 0 ==> r == Err::<ScanConfig, ScanError>(ScanError::ZeroConcurrency),
            concurrency_limit > 0 ==> r == Ok::<ScanConfig, ScanError>(
                ScanConfig { concurrency_limit, retry_budget },
            ),
    {
        if concurrency_limit == 0 {
            Err(ScanError::ZeroConcurrency)
        } else {
            Ok(ScanConfig { concurrency_limit, retry_budget })
        }
    }
}

impl Default for ScanConfig {
    fn default() -> (r: ScanConfig)
        ensures
            r.concurrency_limit == DEFAULT_CONCURRENCY,
            r.retry_budget == DEFAULT_RETRY_BUDGET,
    {
        ScanConfig { concurrency_limit: DEFAULT_CONCURRENCY, retry_budget: DEFAULT_RETRY_BUDGET }
    }
}

} // verus!
