//! Verified core of a rescaling tool for ASCII Neverwinter Nights models:
//! text utilities, wildcard matching and name substitution, the INI rule
//! format, and the line-by-line model rewriting decisions.

pub mod batch;
pub mod cli;
pub mod derive;
pub mod geometry;
pub mod ini;
pub mod model;
pub mod names;
pub mod replace;
pub mod rewrite;
pub mod rule_defaults;
pub mod rules;
pub mod text;
