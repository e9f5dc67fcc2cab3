//! Environments and their vectorized form.

pub mod dummy;
pub mod errors;
pub mod traits;
pub mod vec_env;

pub use dummy::DummyEnv;
pub use errors::EnvError;
pub use traits::{Env, Reward};
pub use vec_env::VecEnv;
