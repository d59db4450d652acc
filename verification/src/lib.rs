//! Migration of articles exported from a legacy content-management system
//! into a static-site content tree: one markdown file with front matter for
//! each article, renamed copies of the images that it refers to, and a
//! thumbnail.
//!
//! The stages, in the order in which the data passes through them:
//!
//! - [`record`]: one entry of the export, as far as it is read;
//! - [`select`]: the records of one year and one category, checked and
//!   turned into that year's bundle of articles;
//! - [`normalize`]: the markup of a record turned into plain text with one
//!   sentence on each line, and the list of its images;
//! - [`order`]: the order of the articles within a year;
//! - [`article`]: the article, the year's bundle, and the documents
//!   rendered from them;
//! - [`layout`]: the names of the directories and files;
//! - [`writer`]: what is written where, and in which order.
//!
//! The library reads and writes no file. The export comes in as a list of
//! [`record::RawRecord`]; what is to be written goes out as a sequence of
//! [`writer::Action`].

pub mod article;
pub mod error;
pub mod layout;
pub mod normalize;
pub mod order;
pub mod record;
pub mod select;
pub mod text;
pub mod writer;
