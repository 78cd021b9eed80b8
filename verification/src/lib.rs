//! A catalog of comic books and the pictures of their pages.
//!
//! The catalog keeps books in the order in which they were taken in and hands
//! out handles to them that can be shared. The pictures come out of comic
//! archives: zip files whose entries are the pages. A session holds the two
//! together with what is on the screen.

pub mod archive;
pub mod book;
pub mod cover;
pub mod decode;
pub mod error;
pub mod ident;
pub mod images;
pub mod library;
pub mod order;
pub mod pages;
pub mod paths;
pub mod raster;
pub mod sequence;
pub mod session;
pub mod shared;
pub mod store;
pub mod viewer;
