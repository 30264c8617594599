pub mod config;
pub mod response;
pub mod s3;
pub mod state;

pub use config::AppConfig;
pub use response::{Response, S3Error};
pub use s3::ListBucketResult;
pub use state::AppState;
