//! Inflection tables and inflected word lists for Pāli dictionary entries.

pub mod text;
pub mod outside;
pub mod host;
pub mod metadata;
pub mod inflections;
pub mod abbreviations;
pub mod generators;
pub mod output;
pub mod ordering;
