//! Helpers of static file serving: the MIME type of a file, its caching
//! policy, and its entity tag.

use crate::paths::{extension_of, path_extension};
use crate::text::{lower_of, lowercase, starts_with, str_equals};
use std::hash::{Hash, Hasher};
use vstd::prelude::*;

verus! {

/// The MIME type of a lower-case extension.
pub open spec fn mime_for(e: Seq<char>) -> Seq<char> {
    if e == "html"@ || e == "htm"@ {
        "text/html; charset=utf-8"@
    } else if e == "xhtml"@ {
        "application/xhtml+xml; charset=utf-8"@
    } else if e == "css"@ {
        "text/css; charset=utf-8"@
    } else if e == "js"@ || e == "mjs"@ {
        "application/javascript; charset=utf-8"@
    } else if e == "json"@ {
        "application/json; charset=utf-8"@
    } else if e == "map"@ {
        "application/json"@
    } else if e == "png"@ {
        "image/png"@
    } else if e == "jpg"@ || e == "jpeg"@ {
        "image/jpeg"@
    } else if e == "gif"@ {
        "image/gif"@
    } else if e == "webp"@ {
        "image/webp"@
    } else if e == "svg"@ {
        "image/svg+xml"@
    } else if e == "ico"@ {
        "image/x-icon"@
    } else if e == "avif"@ {
        "image/avif"@
    } else if e == "bmp"@ {
        "image/bmp"@
    } else if e == "tiff"@ || e == "tif"@ {
        "image/tiff"@
    } else if e == "woff"@ {
        "font/woff"@
    } else if e == "woff2"@ {
        "font/woff2"@
    } else if e == "ttf"@ {
        "font/ttf"@
    } else if e == "otf"@ {
        "font/otf"@
    } else if e == "eot"@ {
        "application/vnd.ms-fontobject"@
    } else if e == "pdf"@ {
        "application/pdf"@
    } else if e == "xml"@ {
        "application/xml"@
    } else if e == "txt"@ {
        "text/plain; charset=utf-8"@
    } else if e == "md"@ {
        "text/markdown; charset=utf-8"@
    } else if e == "csv"@ {
        "text/csv; charset=utf-8"@
    } else if e == "rtf"@ {
        "application/rtf"@
    } else if e == "mp4"@ {
        "video/mp4"@
    } else if e == "webm"@ {
        "video/webm"@
    } else if e == "ogv"@ {
        "video/ogg"@
    } else if e == "avi"@ {
        "video/x-msvideo"@
    } else if e == "mov"@ {
        "video/quicktime"@
    } else if e == "mkv"@ {
        "video/x-matroska"@
    } else if e == "mp3"@ {
        "audio/mpeg"@
    } else if e == "ogg"@ || e == "oga"@ {
        "audio/ogg"@
    } else if e == "wav"@ {
        "audio/wav"@
    } else if e == "flac"@ {
        "audio/flac"@
    } else if e == "aac"@ {
        "audio/aac"@
    } else if e == "m4a"@ {
        "audio/mp4"@
    } else if e == "zip"@ {
        "application/zip"@
    } else if e == "gz"@ || e == "gzip"@ {
        "application/gzip"@
    } else if e == "tar"@ {
        "application/x-tar"@
    } else if e == "rar"@ {
        "application/vnd.rar"@
    } else if e == "7z"@ {
        "application/x-7z-compressed"@
    } else if e == "bz2"@ {
        "application/x-bzip2"@
    } else if e == "wasm"@ {
        "application/wasm"@
    } else if e == "webmanifest"@ {
        "application/manifest+json"@
    } else if e == "appcache"@ {
        "text/cache-manifest"@
    } else if e == "yaml"@ || e == "yml"@ {
        "text/yaml"@
    } else if e == "toml"@ {
        "text/toml"@
    } else if e == "php"@ {
        "text/x-php"@
    } else if e == "py"@ {
        "text/x-python"@
    } else if e == "rb"@ {
        "text/x-ruby"@
    } else if e == "rs"@ {
        "text/x-rust"@
    } else if e == "go"@ {
        "text/x-go"@
    } else if e == "java"@ {
        "text/x-java"@
    } else if e == "c"@ || e == "h"@ {
        "text/x-c"@
    } else if e == "cpp"@ || e == "hpp"@ || e == "cc"@ {
        "text/x-c++"@
    } else if e == "sh"@ || e == "bash"@ {
        "text/x-shellscript"@
    } else {
        "application/octet-stream"@
    }
}

/// The MIME type of a lower-case extension.
fn mime_of_extension(e: &str) -> (r: &'static str)
    ensures
        r@ == mime_for(e@),
{
    if str_equals(e, "html") || str_equals(e, "htm") {
        "text/html; charset=utf-8"
    } else if str_equals(e, "xhtml") {
        "application/xhtml+xml; charset=utf-8"
    } else if str_equals(e, "css") {
        "text/css; charset=utf-8"
    } else if str_equals(e, "js") || str_equals(e, "mjs") {
        "application/javascript; charset=utf-8"
    } else if str_equals(e, "json") {
        "application/json; charset=utf-8"
    } else if str_equals(e, "map") {
        "application/json"
    } else if str_equals(e, "png") {
        "image/png"
    } else if str_equals(e, "jpg") || str_equals(e, "jpeg") {
        "image/jpeg"
    } else if str_equals(e, "gif") {
        "image/gif"
    } else if str_equals(e, "webp") {
        "image/webp"
    } else if str_equals(e, "svg") {
        "image/svg+xml"
    } else if str_equals(e, "ico") {
        "image/x-icon"
    } else if str_equals(e, "avif") {
        "image/avif"
    } else if str_equals(e, "bmp") {
        "image/bmp"
    } else if str_equals(e, "tiff") || str_equals(e, "tif") {
        "image/tiff"
    } else if str_equals(e, "woff") {
        "font/woff"
    } else if str_equals(e, "woff2") {
        "font/woff2"
    } else if str_equals(e, "ttf") {
        "font/ttf"
    } else if str_equals(e, "otf") {
        "font/otf"
    } else if str_equals(e, "eot") {
        "application/vnd.ms-fontobject"
    } else if str_equals(e, "pdf") {
        "application/pdf"
    } else if str_equals(e, "xml") {
        "application/xml"
    } else if str_equals(e, "txt") {
        "text/plain; charset=utf-8"
    } else if str_equals(e, "md") {
        "text/markdown; charset=utf-8"
    } else if str_equals(e, "csv") {
        "text/csv; charset=utf-8"
    } else if str_equals(e, "rtf") {
        "application/rtf"
    } else if str_equals(e, "mp4") {
        "video/mp4"
    } else if str_equals(e, "webm") {
        "video/webm"
    } else if str_equals(e, "ogv") {
        "video/ogg"
    } else if str_equals(e, "avi") {
        "video/x-msvideo"
    } else if str_equals(e, "mov") {
        "video/quicktime"
    } else if str_equals(e, "mkv") {
        "video/x-matroska"
    } else if str_equals(e, "mp3") {
        "audio/mpeg"
    } else if str_equals(e, "ogg") || str_equals(e, "oga") {
        "audio/ogg"
    } else if str_equals(e, "wav") {
        "audio/wav"
    } else if str_equals(e, "flac") {
        "audio/flac"
    } else if str_equals(e, "aac") {
        "audio/aac"
    } else if str_equals(e, "m4a") {
        "audio/mp4"
    } else if str_equals(e, "zip") {
        "application/zip"
    } else if str_equals(e, "gz") || str_equals(e, "gzip") {
        "application/gzip"
    } else if str_equals(e, "tar") {
        "application/x-tar"
    } else if str_equals(e, "rar") {
        "application/vnd.rar"
    } else if str_equals(e, "7z") {
        "application/x-7z-compressed"
    } else if str_equals(e, "bz2") {
        "application/x-bzip2"
    } else if str_equals(e, "wasm") {
        "application/wasm"
    } else if str_equals(e, "webmanifest") {
        "application/manifest+json"
    } else if str_equals(e, "appcache") {
        "text/cache-manifest"
    } else if str_equals(e, "yaml") || str_equals(e, "yml") {
        "text/yaml"
    } else if str_equals(e, "toml") {
        "text/toml"
    } else if str_equals(e, "php") {
        "text/x-php"
    } else if str_equals(e, "py") {
        "text/x-python"
    } else if str_equals(e, "rb") {
        "text/x-ruby"
    } else if str_equals(e, "rs") {
        "text/x-rust"
    } else if str_equals(e, "go") {
        "text/x-go"
    } else if str_equals(e, "java") {
        "text/x-java"
    } else if str_equals(e, "c") || str_equals(e, "h") {
        "text/x-c"
    } else if str_equals(e, "cpp") || str_equals(e, "hpp") || str_equals(e, "cc") {
        "text/x-c++"
    } else if str_equals(e, "sh") || str_equals(e, "bash") {
        "text/x-shellscript"
    } else {
        "application/octet-stream"
    }
}

/// The lower-case extension of a path, empty where it has none.
pub open spec fn lower_extension(path: Seq<char>) -> Seq<char> {
    match extension_of(path) {
        Some(e) => lower_of(e),
        None => lower_of(Seq::empty()),
    }
}

/// The caching policy of a MIME type: a year for images, fonts, scripts,
/// style sheets and WebAssembly; none for HTML; revalidation for JSON; a day
/// for audio and video; an hour for the rest.
pub open spec fn cache_policy(m: Seq<char>) -> Seq<char> {
    if has_prefix(m, "image/"@) || has_prefix(m, "font/"@) || m == "application/javascript; charset=utf-8"@
        || m == "text/css; charset=utf-8"@ || m == "application/wasm"@ {
        "public, max-age=31536000, immutable"@
    } else if has_prefix(m, "text/html"@) {
        "no-cache, no-store, must-revalidate"@
    } else if m == "application/json"@ || m == "application/json; charset=utf-8"@ {
        "public, max-age=0, must-revalidate"@
    } else if has_prefix(m, "video/"@) || has_prefix(m, "audio/"@) {
        "public, max-age=86400"@
    } else {
        "public, max-age=3600"@
    }
}

pub open spec fn has_prefix(s: Seq<char>, p: Seq<char>) -> bool {
    p.len() <= s.len() && s.subrange(0, p.len() as int) == p
}

/// The name that `DefaultHasher` gives to the hash of a path, a size and a
/// modification time.
pub uninterp spec fn file_hash(path: Seq<char>, size: u64, modified_secs: Option<u64>) -> u64;

/// Relies on `std::hash::DefaultHasher` (from `new`, whose keys are fixed):
/// the hash of the path, the size and the optional modification time in
/// seconds.
#[verifier::external_body]
fn hash_file_identity(path: &str, size: u64, modified_secs: Option<u64>) -> (r: u64)
    ensures
        r == file_hash(path@, size, modified_secs),
{
    let mut hasher = std::collections::hash_map::DefaultHasher::new();
    std::path::Path::new(path).hash(&mut hasher);
    size.hash(&mut hasher);
    modified_secs.hash(&mut hasher);
    hasher.finish()
}

/// The lower-case hexadecimal digits of `n`, without leading zeros.
pub open spec fn hex_seq(n: nat) -> Seq<char>
    decreases n,
{
    let d = n % 16;
    let c = if d < 10 {
        (d + ('0' as nat)) as char
    } else {
        (d - 10 + ('a' as nat)) as char
    };
    if n < 16 {
        seq![c]
    } else {
        hex_seq(n / 16).push(c)
    }
}

fn push_hex(v: &mut Vec<char>, n: u64)
    ensures
        final(v)@ == old(v)@ + hex_seq(n as nat),
    decreases n,
{
    if n >= 16 {
        push_hex(v, n / 16);
    }
    let d = (n % 16) as u8;
    let c = if d < 10 {
        (d + 48u8) as char
    } else {
        (d - 10 + 97u8) as char
    };
    v.push(c);
    assert(final(v)@ =~= old(v)@ + hex_seq(n as nat));
}

/// Serves files from disk up to a size limit.
pub struct StaticFileHandler {
    max_file_size: u64,
}

impl StaticFileHandler {
    pub closed spec fn max_file_size_spec(&self) -> u64 {
        self.max_file_size
    }

    /// A handler that serves files of up to 100 MiB.
    pub fn new() -> (r: StaticFileHandler)
        ensures
            r.max_file_size_spec() == 100 * 1024 * 1024,
    {
        StaticFileHandler { max_file_size: 100 * 1024 * 1024 }
    }

    /// The largest file served, in bytes.
    pub fn max_file_size(&self) -> (r: u64)
        ensures
            r == self.max_file_size_spec(),
    {
        self.max_file_size
    }

    /// The MIME type of a file, by its extension in any case.
    pub fn guess_mime_type(&self, path: &str) -> (r: &'static str)
        ensures
            r@ == mime_for(lower_extension(path@)),
    {
        let ext = match path_extension(path) {
            Some(e) => e,
            None => String::new(),
        };
        let lower = lowercase(ext.as_str());
        mime_of_extension(lower.as_str())
    }

    /// The `Cache-Control` value for a MIME type.
    pub fn cache_control(&self, mime_type: &str) -> (r: &'static str)
        ensures
            r@ == cache_policy(mime_type@),
    {
        if starts_with(mime_type, "image/") || starts_with(mime_type, "font/") || str_equals(
            mime_type,
            "application/javascript; charset=utf-8",
        ) || str_equals(mime_type, "text/css; charset=utf-8") || str_equals(
            mime_type,
            "application/wasm",
        ) {
            "public, max-age=31536000, immutable"
        } else if starts_with(mime_type, "text/html") {
            "no-cache, no-store, must-revalidate"
        } else if str_equals(mime_type, "application/json") || str_equals(
            mime_type,
            "application/json; charset=utf-8",
        ) {
            "public, max-age=0, must-revalidate"
        } else if starts_with(mime_type, "video/") || starts_with(mime_type, "audio/") {
            "public, max-age=86400"
        } else {
            "public, max-age=3600"
        }
    }

    /// The entity tag of a file: the hash of its path, size and modification
    /// time, in lower-case hexadecimal.
    pub fn generate_etag(&self, path: &str, size: u64, modified_secs: Option<u64>) -> (r: String)
        ensures
            r@ == hex_seq(file_hash(path@, size, modified_secs) as nat),
    {
        let h = hash_file_identity(path, size, modified_secs);
        let mut v: Vec<char> = Vec::new();
        push_hex(&mut v, h);
        assert(v@ =~= hex_seq(h as nat));
        crate::text::string_of(v.as_slice())
    }
}

impl Default for StaticFileHandler {
    fn default() -> (r: StaticFileHandler)
        ensures
            r.max_file_size_spec() == 100 * 1024 * 1024,
    {
        StaticFileHandler::new()
    }
}

} // verus!
