//! Card browsing and deck building: the bounded registry of image fetches,
//! the loading state of each card image, the steps of one fetch over a
//! cache on disk, deck files, and the search for cards by name.

pub mod deck;
pub mod fetch;
pub mod search;
pub mod sizedbuffer;
pub mod sorting;
pub mod text;
pub mod yugioh;
