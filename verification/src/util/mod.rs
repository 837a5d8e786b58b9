//! Helpers that the request handlers share.

pub mod display;
pub mod files;
pub mod headers;
pub mod url;

pub use self::display::{
    human_readable_size, CommaList, DisplayThree, HtmlResponseElement, HumanReadableSize, Maybe, MsAsS, NoDoubleQuotes,
    NoHtmlLiteral,
};
pub use self::headers::{HeaderError, WwwAuthenticate, XLastModified, XOcMTime};
pub use self::url::{encode_tail_if_trimmed, escape_specials, percent_decode, url_path};
pub use self::files::{
    client_microsoft, client_mobile, detect_file_as_dir, file_binary, file_etag, file_icon_suffix,
    file_time_modified, is_actually_file, is_descendant_of, is_nonexistent_descendant_of, FileKind,
};
pub use crate::ops::rawfs::get_raw_fs_metadata;
