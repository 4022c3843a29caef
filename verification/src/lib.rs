//! Channels between tasks and threads, and the locks and signals under them.
//!
//! The operations of a channel, of a lock and of a signal are stated on what their threads share,
//! and proved. What runs on several threads at once is written as a machine that says which access
//! to the shared memory comes next, and goes on from the answer. The threads that drive these
//! machines, park, and wake tasks are outside of this library.

pub mod channel;
pub mod lock;
pub mod sync;
pub mod waker;

pub use channel::blocking::{Blocking, Round};
pub use channel::channel::Channel;
pub use channel::error::{
    FutureError, RecvError, SendError, TryRecvError, TryRecvTimeoutError, TrySendError,
    TrySendTimeoutError,
};
pub use channel::future::SendFuture;
pub use waker::atomic::Poll;
