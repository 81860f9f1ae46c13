//! Exact scoring and ranking of mentor candidates against one learner.
//!
//! A candidate is judged by five factors: the overlap of skills, a match of
//! locations, the hours available, the years of experience and the teaching
//! style. Their weighted sum is the candidate's score out of 100, and the
//! best candidates are listed, best first, each with a sentence that says
//! what speaks for it.
//!
//! Factors and scores are fractions of integers ([`ratio::Ratio`]), so that
//! every comparison is exact and the listing is determined by its input.
//! Every function states what it returns over a mathematical model and is
//! proved to return it. Three things are taken on trust and marked so where
//! they stand: the lower-case form that the standard library gives to a
//! text, the order in which rayon collects what it computed in parallel,
//! and that an identifier of the `uuid` crate is copied as it is.
//!
//! - [`ratio`]: fractions and their comparison
//! - [`text`]: lower case, substring search, decimal numerals
//! - [`models`]: the records read and produced
//! - [`skills`], [`location`], [`factors`]: the five factors
//! - [`score`]: the weighted sum
//! - [`reasoning`]: the sentence for a ranked candidate
//! - [`ranking`]: the order of the best
//! - [`matching`]: the matcher that puts these together
//! - [`handlers`]: a request and its answer

pub mod factors;
pub mod handlers;
pub mod location;
pub mod matching;
pub mod models;
pub mod ranking;
pub mod ratio;
pub mod reasoning;
pub mod score;
pub mod skills;
pub mod text;
