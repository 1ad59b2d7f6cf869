//! Core of a database backup tool: the file-name timestamp convention that
//! orders backup artifacts, the listing and retention rules of the storage
//! layer, and the connection and restore planning of the database layer.

pub mod timestamp;
pub mod storage;
pub mod retention;
pub mod database;
