pub mod aggregate;
pub mod hashing;
pub mod logging;
pub mod request;
mod rng;
pub mod runner;
pub mod testcase;
pub mod timing;
pub mod workload;

pub use hashing::generate_hash_from_number;
pub use request::Request;
pub use runner::Executor;
pub use testcase::TestCase;
pub use timing::compute_time_diff_ms;
pub use timing::get_current_time;
