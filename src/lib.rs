//! A small log-collection service core: where uploads are stored, how the
//! archive of stored logs is built, and what each request is answered with.
//!
//! The HTTP server, the multipart reader and the filesystem stay outside;
//! they hand this library plain values and act on what it decides.

mod archive;
mod clock;
mod error;
mod http;
mod laws;
mod storage;
mod text;
mod upload;

pub use archive::{
    add_entries, all_below, appended_to_last, archivable, deflated_entry_formats,
    entries_small, regular_file_mode, zip_archive_formats, zip_entry_formats, build_archive, download_archive,
    entries_addable, entries_for, entry_name, name_unused, names_fit, relative_name,
    zip_archive_entries, zip_entries, zip_entry_open, ArchiveWriter, StoredFile, ENTRY_UNIX_MODE,
    MAX_ENTRY_BYTES, MAX_ENTRY_NAME_CHARS,
};
pub use clock::LocalDateTime;
pub use error::{
    bad_request, bad_request_with, error_body, error_body_text, internal_error,
    internal_error_with, hex_digit, json_escape_all, json_escaped, json_string_literal, ApiError,
};
pub use http::{
    archive_file_name, content_disposition, download_file_name, health_body, health_text, route,
    route_spec, upload_success_body, upload_success_text, Endpoint, ARCHIVE_CONTENT_TYPE,
};
pub use laws::{
    lemma_archive_of_uploads, lemma_date_text_injective, lemma_distinct_days_distinct_dirs,
    lemma_entry_name_of_stored_path,
};
pub use storage::{
    daily_dir, daily_dir_text, dir_prefix, dir_prefix_string, is_separator, part_accepted, plan_upload_part, relative_path_text,
    sanitize_file_name, sanitized, stored_file_name, stored_file_path, stored_name_text,
    stored_path_text, UploadTarget,
};
pub use text::{decimal, digit_char, padded, signed_decimal, year_text};
pub use upload::UploadSession;
