//! Glimpse: the core of a photo culling tool.
//!
//! A user opens a folder of photographs, standard images as well as camera
//! RAW files, tags each as kept or rejected, and exports the keepers. This
//! library holds the rules of that work, each with a contract that is proved:
//!
//! - [`scanner`] decides which entries of a directory listing are images and
//!   puts them in their canonical order;
//! - [`session_id`] derives the identifier of a folder's session from its path;
//! - [`database`], over the tables of [`tables`] and the rows of [`records`],
//!   is the store of sessions, labels and thumbnail-cache entries;
//! - [`thumbnails`] plans the derived files of each image and reports on them,
//!   [`generator`] produces their bytes, and [`batch`] keeps the books of a
//!   batch while workers report in any order;
//! - [`export`] plans and counts an export;
//! - [`commands`] ties these together into the operations of the user
//!   interface, and [`config`], [`cache`], [`storage`] and [`exif`] serve the
//!   settings page, the cache layout and the detail view.
//!
//! The library never reads or writes a file, starts a thread or asks for the
//! time. Whatever comes from outside is passed in as plain values, and
//! whatever has to happen outside is handed back to the caller.

pub mod batch;
pub mod cache;
pub mod commands;
pub mod config;
pub mod database;
pub mod error;
pub mod exif;
pub mod export;
pub mod formats;
pub mod generator;
pub mod numbers;
pub mod records;
pub mod scanner;
pub mod sequences;
pub mod session_id;
pub mod storage;
pub mod tables;
pub mod text;
pub mod thumbnails;
