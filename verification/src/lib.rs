//! Streaming transforms over fixed-point samples.
//!
//! A transform consumes one sample at a time and shows, after each, one
//! output. Samples and outputs are `i64`; a number with a fraction is carried
//! in fixed point, `normalizer::UNIT` standing for 1. What a transform
//! computes is modelled as a function from the sequence of samples consumed
//! to the output shown, and every transform of this crate is proved to show
//! exactly that.
//!
//! - [`sliding_window`] holds the transform interface, the model, and the
//!   aggregator that feeds one stream to many transforms.
//! - [`normalizer`] holds the rescaler, which maps the output of any
//!   transform into `[-UNIT, UNIT]` by the extent of a sliding window.
//! - [`extent`] holds what is proved of the least and greatest value of a
//!   window.
//! - [`echo`] holds the pass-through transform.
//! - [`trend_flex`] holds the memory and the warm-up rule of a
//!   trend-standardizing oscillator, whose arithmetic is left to the caller.
//! - [`error`] holds the reason for which a configuration is refused.

pub mod echo;
pub mod error;
pub mod extent;
pub mod normalizer;
pub mod sliding_window;
pub mod trend_flex;
