//! Core of a service that hands out the output of a Quantis quantum random
//! number generator: the byte ring that buffers entropy, the debiasing and
//! integer-sampling transformations, and the decisions of the device adapter,
//! the refill task and the request dispatcher.

pub mod device;
pub mod utils;
pub mod api;
