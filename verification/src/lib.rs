//! Photo culling core: ratings, filters, navigation through a shoot, the
//! coverage timeline, the ratings sidecar model and the keeper export plan.

pub mod arith;
pub mod decode;
pub mod demo;
pub mod export;
pub mod laws;
pub mod messages;
pub mod model;
pub mod namemap;
pub mod names;
pub mod persist;
pub mod requests;
pub mod scan;
pub mod session;
pub mod thumbs;
pub mod timeline;
