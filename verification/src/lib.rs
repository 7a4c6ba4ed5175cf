//! Keeps a record of the items listed on a catalog page in step with the
//! page.
//!
//! The lines of the page are parsed into sections, one for each block of the
//! page (`parsers`, over the line grammar of `grammar` and the characters of
//! `text`). The sections are reconciled with the record of known listings
//! (`reconcile`, over the record of `store`), and each change becomes an
//! event, which a push notification tells (`fcm`). What the parser and the
//! reconciler owe their callers beyond the contracts of their functions is
//! proved in `extraction` and in `guarantees`.

pub mod extraction;
pub mod fcm;
pub mod grammar;
pub mod guarantees;
pub mod models;
pub mod parsers;
pub mod reconcile;
pub mod store;
pub mod text;
