//! Stylometric authorship attribution: a text-statistics pipeline that turns a
//! document into a fingerprint of counters and clamped histograms, and a
//! perceptron engine that trains a linear classifier on fixed-length
//! fixed-point feature vectors.

pub mod chars;
pub mod corpus;
pub mod features;
pub mod nlp;
pub mod perceptron;
pub mod stats;
