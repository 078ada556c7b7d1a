//! A charm source model and its publish pipeline: the closed schemas of a
//! charm's metadata and config documents, the resolution of declared
//! resources against supplied values and upstream defaults, and the
//! build/push/promote state machines for the two distribution backends.
//! Every function here carries its contract; the surrounding shell performs
//! the filesystem reads and the external tool calls that the machines ask
//! for.

pub mod assoc;
pub mod errors;
pub mod yaml;
pub mod schema;
pub mod charm;
pub mod outparse;
pub mod pipeline;
