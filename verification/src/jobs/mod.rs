//! Background jobs: tenant-scoped, typed units of work with retry, backoff
//! and a dead-letter queue for jobs that exhausted their attempts.
pub mod types;
pub mod store;
pub mod executor;

pub use types::{
    BackoffStrategy, DeadLetterEntry, Job, JobAttemptRecord, JobId, JobKind, JobResult, JobStatus,
    RetryPolicy,
};

pub use store::{InMemoryJobStore, JobStats, JobStore, JobStoreError};
pub use executor::{ExecutorStats, JobExecutor, JobExecutorConfig};
