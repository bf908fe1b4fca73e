//! Title normalisation and lyrics search for a desktop lyrics companion.
//!
//! The crate turns messy media titles into canonical song titles, decodes
//! timed lyrics, ranks the queries to send to a lyrics provider and decides,
//! result by result, which answer of a concurrent search wins. Every
//! function states what it returns over a mathematical model of its
//! arguments, and Verus proves that it does.
//!
//! * [`track_cleaning`] is the title normaliser; [`title_rules`],
//!   [`noise_rules`], [`title_split`] and [`title_residue`] hold its rules.
//! * [`corpus`] reads the labelled corpus and holds the accuracy that is required.
//! * [`lyrics`] decodes timed and plain lyrics into lines of [`types`].
//! * [`candidates`] ranks the query variants, [`query`] writes their URLs.
//! * [`race`] decides the race between the candidates; [`records`] chooses
//!   among the records of an answer; [`fetch`] plans a whole fetch.
//! * [`tracks`] follows the track that is playing.
//! * [`benchmark`] reads and marks the answers of hosted models.
//! * [`text`] holds the text operations that the rest is stated in, and
//!   [`pattern`] the regular-expression matching that is taken on trust.

pub mod benchmark;
pub mod candidates;
pub mod corpus;
pub mod fetch;
pub mod lyrics;
pub mod noise_rules;
pub mod pattern;
pub mod query;
pub mod race;
pub mod records;
pub mod text;
pub mod title_residue;
pub mod title_rules;
pub mod title_split;
pub mod track_cleaning;
pub mod tracks;
pub mod types;
