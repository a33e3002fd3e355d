//! Flattens several animated GIF streams of identical geometry and timing
//! into a single composited animation, layering them bottom-to-top frame by
//! frame under a binary-alpha paste rule.

pub mod compose;
pub mod error;
pub mod pipeline;
pub mod uniform;

mod codec;
