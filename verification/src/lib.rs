//! The decisions behind extracting a ZIP archive safely.
//!
//! An archive is extracted into a staging directory and moved into place
//! when all of it is there. On the way its names are put into an encoding
//! (`encoding`, `detect`), made safe (`path`), and freed of a directory
//! that wraps the whole archive (`inner_root`). For each entry `unzip`
//! plans what is made where, `engine` takes the entries in their order,
//! `copy` steers the copy of an entry's content, and `interrupt` lets a
//! user stop the work. `replace` says what happens to
//! the staging directory and the target at the end.
//!
//! Nothing here reads an archive or touches the file system: the caller
//! hands over what an archive reader says of the entries (`zip_ext`), does
//! what the plans ask for, and reports back. What is proved of the parts is
//! stated with them, and in `path_laws` and `inner_root_laws`.

pub mod copy;
pub mod detect;
pub mod encoding;
pub mod engine;
pub mod error;
pub mod inner_root;
pub mod inner_root_laws;
pub mod interrupt;
pub mod path;
pub mod path_laws;
pub mod replace;
pub mod tempfile_utils;
pub mod unzip;
pub mod zip_ext;
