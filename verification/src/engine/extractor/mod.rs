//! The extractor stage: decodes documents and summarises their text.

pub mod commands;
pub mod formats;
pub mod tokens;
pub mod utils;
pub mod workers;

use vstd::prelude::*;
use crate::engine::extractor::workers::ExtractorWorker;
use crate::engine::scanner::{Scanner, ScannerView};

verus! {

/// `std::io::Error`, which says why a file could not be read. It is
/// carried along and never looked into.
#[verifier::external_type_specification]
#[verifier::external_body]
pub struct ExIoError(std::io::Error);

/// How many documents a bulk save holds at most.
pub const DEFAULT_INSERT_BATCH_SIZE: usize = 100;

/// How long a document waits in the buffer at most, in milliseconds.
pub const DEFAULT_FLUSH_INTERVAL_MS: u64 = 5000;

/// How many tokens a summary holds at most.
pub const DEFAULT_MAX_TOKENS: usize = 500;

/// The shortest token that is kept, in bytes.
pub const DEFAULT_TOKENS_MIN_LENGTH: usize = 3;

/// How long a worker waits for a command before it looks at its buffer, in
/// milliseconds.
pub const WORKER_RECEIVE_TIMEOUT_MS: u64 = 200;

/// Where the PDF library is looked for unless the environment says
/// otherwise. An empty path stands for the library of the system.
pub const DEFAULT_PDFIUM_LIB_PATH: &'static str = "vendor/pdfium/lib/libpdfium.so";

/// Why an extractor failed.
#[derive(Debug)]
pub enum ExtractorError {
    ExtractionFailed,
    JoinHandleError,
    IoError(std::io::Error),
}

/// The settings of the extractor stage.
#[derive(Debug, Clone, Copy, PartialEq, Eq, Structural)]
pub struct ExtractorConfig {
    pub insert_batch_size: usize,
    pub flush_interval_ms: u64,
    pub tokens_min_length: usize,
    pub max_tokens: usize,
}

/// The settings that hold where nothing else is said.
pub open spec fn default_config() -> ExtractorConfig {
    ExtractorConfig {
        insert_batch_size: DEFAULT_INSERT_BATCH_SIZE,
        flush_interval_ms: DEFAULT_FLUSH_INTERVAL_MS,
        tokens_min_length: DEFAULT_TOKENS_MIN_LENGTH,
        max_tokens: DEFAULT_MAX_TOKENS,
    }
}

impl Default for ExtractorConfig {
    fn default() -> (config: Self)
        ensures
            config == default_config(),
    {
        ExtractorConfig {
            insert_batch_size: DEFAULT_INSERT_BATCH_SIZE,
            flush_interval_ms: DEFAULT_FLUSH_INTERVAL_MS,
            tokens_min_length: DEFAULT_TOKENS_MIN_LENGTH,
            max_tokens: DEFAULT_MAX_TOKENS,
        }
    }
}

impl ExtractorConfig {
    /// The settings with each value that is given in place of its default.
    pub fn with_overrides(
        insert_batch_size: Option<usize>,
        flush_interval_ms: Option<u64>,
        tokens_min_length: Option<usize>,
        max_tokens: Option<usize>,
    ) -> (config: Self)
        ensures
            config.insert_batch_size == (match insert_batch_size {
                Some(v) => v,
                None => DEFAULT_INSERT_BATCH_SIZE,
            }),
            config.flush_interval_ms == (match flush_interval_ms {
                Some(v) => v,
                None => DEFAULT_FLUSH_INTERVAL_MS,
            }),
            config.tokens_min_length == (match tokens_min_length {
                Some(v) => v,
                None => DEFAULT_TOKENS_MIN_LENGTH,
            }),
            config.max_tokens == (match max_tokens {
                Some(v) => v,
                None => DEFAULT_MAX_TOKENS,
            }),
    {
        ExtractorConfig {
            insert_batch_size: match insert_batch_size {
                Some(v) => v,
                None => DEFAULT_INSERT_BATCH_SIZE,
            },
            flush_interval_ms: match flush_interval_ms {
                Some(v) => v,
                None => DEFAULT_FLUSH_INTERVAL_MS,
            },
            tokens_min_length: match tokens_min_length {
                Some(v) => v,
                None => DEFAULT_TOKENS_MIN_LENGTH,
            },
            max_tokens: match max_tokens {
                Some(v) => v,
                None => DEFAULT_MAX_TOKENS,
            },
        }
    }
}

/// The extractor stage: hands out the workers of its pool.
#[derive(Debug)]
pub struct Extractor {
    scanner: Scanner,
    config: ExtractorConfig,
    workers: usize,
}

impl Extractor {
    /// A stage without workers.
    pub fn new(scanner: Scanner, config: ExtractorConfig) -> (extractor: Self)
        ensures
            extractor.worker_count() == 0,
            extractor.scanner_view() == scanner@,
            extractor.settings() == config,
    {
        Extractor { scanner, config, workers: 0 }
    }

    /// How many workers the stage has handed out.
    pub closed spec fn worker_count(&self) -> nat {
        self.workers as nat
    }

    /// The filters that the workers share.
    pub closed spec fn scanner_view(&self) -> ScannerView {
        self.scanner@
    }

    /// The settings that the workers share.
    pub closed spec fn settings(&self) -> ExtractorConfig {
        self.config
    }

    /// A new worker, numbered by the count of workers before it, with the
    /// filters and settings of the stage, an empty buffer, and `now_ms` as
    /// the time of its last flush. Nothing where the count of workers cannot
    /// grow.
    pub fn add_worker(&mut self, now_ms: u64) -> (worker: Option<ExtractorWorker>)
        ensures
            final(self).scanner_view() == old(self).scanner_view(),
            final(self).settings() == old(self).settings(),
            worker is Some == (old(self).worker_count() < usize::MAX),
            worker is Some ==> final(self).worker_count() == old(self).worker_count() + 1 && worker->0@
                == crate::engine::extractor::workers::fresh_worker(
                old(self).worker_count() as usize,
                old(self).scanner_view(),
                old(self).settings(),
                now_ms,
            ),
            worker is None ==> final(self).worker_count() == old(self).worker_count(),
    {
        if self.workers == usize::MAX {
            return None;
        }
        let worker = ExtractorWorker::new(self.workers, self.scanner.clone(), self.config, now_ms);
        self.workers = self.workers + 1;
        Some(worker)
    }
}

} // verus!
