pub mod buffer;
pub mod empty;
pub mod idset;
pub mod manager;
pub mod mtls;
pub mod multiplex;
pub mod operators;
pub mod p2p;
pub mod references;
pub mod registry;
pub mod ring;
pub mod shared;
pub mod storage;
pub mod storages;
pub mod stream;
pub mod time;
pub mod token;
pub mod vlock;

pub use empty::EmptyTopic;
pub use manager::{TopicManager, TopicState};
pub use multiplex::{Flow, FlowGroup, RefreshPlan};
pub use p2p::{HandlerSymbol, Negotiate};
pub use shared::{SharedBuffer, SharedStream};
pub use storage::Storage;
pub use storages::{Scope, StorageManager};
pub use time::{Interval, Timeout};
pub use token::TopicToken;
pub use vlock::{VLock, VLockGuard};
