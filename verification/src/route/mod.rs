//! Which way a connection goes, and what happens to it there.

pub mod fallback;
pub mod proxy;
pub mod router;
pub mod serve;
