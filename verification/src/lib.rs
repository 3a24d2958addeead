pub mod context;
pub mod copy;
pub mod structs;

pub use context::{Context, GlobalContext};
pub use copy::{StreamCopy, StreamCopyMutex, StreamCopyOutPort};
pub use structs::{EveError, PollResult, Producer};
