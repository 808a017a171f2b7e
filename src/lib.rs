//! Persistence core of the DeciStudio client: the application-state document,
//! its JSON text encoding, and the load policy that degrades to defaults.
use vstd::prelude::*;

pub mod codec;
pub mod encode;
pub mod model;
pub mod storage;
pub mod text;

pub use model::{AppData, AppSettings, OperationMode};
pub use storage::StorageManager;
