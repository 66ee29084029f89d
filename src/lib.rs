//! A small file-sharing service's core: short random hashes, the stored-name
//! convention that pairs a hash with an uploaded file's name, resolution of a
//! hash against a directory listing, the listing page, page templates, and
//! the responses served for files.
pub mod codec;
pub mod hash;
pub mod listing;
pub mod resolver;
pub mod response;
pub mod size;
pub mod template;
pub mod upload;
