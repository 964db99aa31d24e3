//! A reactive resource-fetch pipeline: a query parameter drives an optional
//! integer key, the key drives an asynchronous validation fetch, and the
//! latest outcome for the current key is exposed to a rendering layer.
pub mod digits;
pub mod fetch;
pub mod query;
pub mod server;

pub use digits::decimal_string;
pub use digits::parse_decimal;
pub use fetch::resolve;
pub use fetch::settle;
pub use fetch::ErrorReason;
pub use fetch::FetchAction;
pub use fetch::FetchOutcome;
pub use fetch::Fetcher;
pub use fetch::FetcherView;
pub use fetch::OutcomeView;
pub use query::QuerySignal;
pub use query::QueryView;
pub use server::server;
pub use server::ServerError;
