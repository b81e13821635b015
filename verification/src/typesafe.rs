//! Client for the TypeSafe AI API.

pub mod answer;
pub mod client;
pub mod error;
pub mod question;
pub mod request;
pub mod retry;

pub use self::answer::{
    Answer, ChoiceAnswer, ModelCard, NoulAnswer, ScoreAnswer, SystemOneResult, Usage,
};
pub use self::client::{
    ClientBuilder, Environment, TypeSafeClient, DEFAULT_BASE_URL, DEFAULT_MODEL, DEFAULT_TIMEOUT_SECS,
    ENV_API_KEY, ENV_BASE_URL, ENV_DEFAULT_MODEL, VERSION,
};
pub use self::error::{ApiError, ApiErrorKind, Error};
pub use self::question::{Description, NoulCriteria, Question};
pub use self::request::{EntryType, SystemOneRequest};
pub use self::retry::RetryPolicy;
