pub mod access;
pub mod api_keys;
pub mod backends;
pub mod config;
pub mod crypto;
pub mod digest;
pub mod error;
pub mod files;
pub mod http;
pub mod imaging;
pub mod intake;
pub mod ids;
pub mod jobs;
pub mod json;
pub mod names;
pub mod pipeline;
pub mod password;
pub mod presets;
pub mod rate_limit;
pub mod session;
pub mod setup;
pub mod storage;
pub mod text;
pub mod uploads;
pub mod webhooks;
pub mod worker;
