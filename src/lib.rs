//! Read path of a block ledger: assembling blocks out of height-indexed stores,
//! and scanning the output records of the ledger's history for those that a view
//! key owns, classified as spent or unspent under the serial-number scheme or the
//! tag scheme.
pub mod types;
pub mod network;
pub mod ledger;
pub mod scan;
