//! Small in-memory aggregates with verified contracts: bank accounts, a media
//! catalog, a single-item container, a card deck and a few text utilities.

pub mod bank;
pub mod decimal;
pub mod media;
pub mod container;
pub mod deck;
pub mod text;
pub mod lists;
