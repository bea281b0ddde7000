//! Installation of a downloaded runtime archive: the format is chosen by
//! the artifact name's suffix, the archive is decoded and read in memory,
//! and the runtime binary is located among its entries.  Writing the binary
//! to disk and setting its permission bits is left to the caller, which
//! receives the bytes and the fixed mode below.

use vstd::prelude::*;
use vstd::string::StrSliceExecFns;
use vstd::string::StringExecFns;
use crate::strutil::{
    self,
    spec_ends_with,
    find_sub_spec,
    lemma_find_sub_spec_at,
    lemma_find_sub_spec_none,
};

verus! {

/// The permission bits set on the installed binary on POSIX targets
/// (owner read-write-execute, group and others read-execute): archives do
/// not reliably preserve them.
pub const EXEC_MODE: u32 = 0o755;

/// The archive formats a runtime download can arrive in.
#[derive(Clone, Copy, Debug, PartialEq, Eq, Structural)]
pub enum ArchiveFormat {
    /// A tar archive compressed with xz or gzip.
    Tar,
    /// A zip archive.
    Zip,
}

/// The format an artifact name calls for, by its suffix; `None` for a
/// suffix the installer does not support.
pub open spec fn classify_spec(url: Seq<char>) -> Option<ArchiveFormat> {
    if spec_ends_with(url, ".tar.xz"@) || spec_ends_with(url, ".tar.gz"@) {
        Some(ArchiveFormat::Tar)
    } else if spec_ends_with(url, ".zip"@) {
        Some(ArchiveFormat::Zip)
    } else {
        None
    }
}

/// Chooses the archive format for a download by its artifact name.
pub fn classify_download(url: &str) -> (r: Option<ArchiveFormat>)
    ensures
        r == classify_spec(url@),
{
    if strutil::ends_with_str(url, ".tar.xz") || strutil::ends_with_str(url, ".tar.gz") {
        Some(ArchiveFormat::Tar)
    } else if strutil::ends_with_str(url, ".zip") {
        Some(ArchiveFormat::Zip)
    } else {
        None
    }
}

/// One entry of an archive, read into memory.
pub struct ArchiveEntry {
    /// The entry's path inside the archive.
    pub path: String,
    /// Whether the entry is a directory.
    pub is_dir: bool,
    /// The entry's contents (empty for a directory).
    pub data: Vec<u8>,
}

/// The mathematical image of an archive entry.
pub open spec fn entry_model(e: ArchiveEntry) -> (Seq<char>, bool, Seq<u8>) {
    (e.path@, e.is_dir, e.data@)
}

/// The models of a list of archive entries.
pub open spec fn entry_models(s: Seq<ArchiveEntry>) -> Seq<(Seq<char>, bool, Seq<u8>)> {
    s.map_values(|e: ArchiveEntry| entry_model(e))
}

/// What the xz stream in `b` decompresses to, or nothing when `b` is not a
/// well-formed xz stream.  Named only: it is computed by the xz codec and
/// depends on `b` alone.
pub uninterp spec fn xz_decoded(b: Seq<u8>) -> Option<Seq<u8>>;

/// What the gzip stream in `b` decompresses to, or nothing when `b` is not
/// a well-formed gzip stream.  Named only: it is computed by the gzip codec
/// and depends on `b` alone.
pub uninterp spec fn gz_decoded(b: Seq<u8>) -> Option<Seq<u8>>;

/// The entries of the tar archive `b` in order, each with its path,
/// directory flag and contents, or nothing when `b` cannot be read as a
/// tar archive.  Named only: it is computed by the tar reader and depends
/// on `b` alone.  One caveat: entry names are decoded per target (a
/// non-Unicode name errors on Windows but is read with replacement
/// characters elsewhere), so the name is a fixed function of the bytes
/// within any one build; the runtime artifacts handled here have ASCII
/// names, on which every target agrees.
pub uninterp spec fn tar_entry_list(b: Seq<u8>) -> Option<Seq<(Seq<char>, bool, Seq<u8>)>>;

/// The entries of the zip archive `b` in order, each with its path,
/// directory flag and contents, or nothing when `b` cannot be read as a
/// zip archive.  Named only: it is computed by the zip reader and depends
/// on `b` alone.
pub uninterp spec fn zip_entry_list(b: Seq<u8>) -> Option<Seq<(Seq<char>, bool, Seq<u8>)>>;

/// Relies on `xz2::read::XzDecoder` reading the whole buffer: the
/// decompressed bytes are a function of the input bytes alone.
#[verifier::external_body]
fn xz_decode(content: &[u8]) -> (r: Option<Vec<u8>>)
    ensures
        r is Some <==> xz_decoded(content@) is Some,
        r is Some ==> r->0@ == xz_decoded(content@)->0,
{
    let mut out: Vec<u8> = Vec::new();
    let mut decoder = xz2::read::XzDecoder::new(content);
    match std::io::Read::read_to_end(&mut decoder, &mut out) {
        Ok(_) => Some(out),
        Err(_) => None,
    }
}

/// Relies on `flate2::read::GzDecoder` reading the whole buffer: the
/// decompressed bytes are a function of the input bytes alone.
#[verifier::external_body]
fn gz_decode(content: &[u8]) -> (r: Option<Vec<u8>>)
    ensures
        r is Some <==> gz_decoded(content@) is Some,
        r is Some ==> r->0@ == gz_decoded(content@)->0,
{
    let mut out: Vec<u8> = Vec::new();
    let mut decoder = flate2::read::GzDecoder::new(content);
    match std::io::Read::read_to_end(&mut decoder, &mut out) {
        Ok(_) => Some(out),
        Err(_) => None,
    }
}

/// Relies on `tar::Archive::entries`: the entries, their paths, types and
/// contents are a function of the archive bytes alone.
#[verifier::external_body]
fn tar_entries(content: &[u8]) -> (r: Option<Vec<ArchiveEntry>>)
    ensures
        r is Some <==> tar_entry_list(content@) is Some,
        r is Some ==> entry_models(r->0@) == tar_entry_list(content@)->0,
{
    let mut archive = tar::Archive::new(content);
    let mut out: Vec<ArchiveEntry> = Vec::new();
    for entry in archive.entries().ok()? {
        let mut entry = entry.ok()?;
        let path = entry.path().ok()?.to_string_lossy().to_string();
        let is_dir = entry.header().entry_type().is_dir();
        let mut data: Vec<u8> = Vec::new();
        std::io::Read::read_to_end(&mut entry, &mut data).ok()?;
        out.push(ArchiveEntry { path, is_dir, data });
    }
    Some(out)
}

/// Relies on `zip::ZipArchive` over the byte buffer: the entries, their
/// names, types and contents are a function of the archive bytes alone.
#[verifier::external_body]
fn zip_entries(content: &[u8]) -> (r: Option<Vec<ArchiveEntry>>)
    ensures
        r is Some <==> zip_entry_list(content@) is Some,
        r is Some ==> entry_models(r->0@) == zip_entry_list(content@)->0,
{
    let mut archive = zip::ZipArchive::new(std::io::Cursor::new(content)).ok()?;
    let mut out: Vec<ArchiveEntry> = Vec::new();
    for i in 0..archive.len() {
        let mut file = archive.by_index(i).ok()?;
        let path = file.name().to_string();
        let is_dir = file.is_dir();
        let mut data: Vec<u8> = Vec::new();
        std::io::Read::read_to_end(&mut file, &mut data).ok()?;
        out.push(ArchiveEntry { path, is_dir, data });
    }
    Some(out)
}

/// True when `p` is `<top>/<mid-less tail>`: a non-empty first component
/// without `/`, followed (from its first `/`) by exactly `mid + name`.
/// With `mid` of `/bin/` this is `<top>/bin/<name>`; with `mid` of `/` it
/// is `<top>/<name>`.
pub open spec fn binary_entry_match(p: Seq<char>, mid: Seq<char>, name: Seq<char>) -> bool {
    let k = find_sub_spec(p, "/"@);
    k > 0 && p.skip(k) == mid + name
}

fn is_binary_entry(p: &str, mid: &str, name: &str) -> (r: bool)
    ensures
        r == binary_entry_match(p@, mid@, name@),
{
    let n = p.unicode_len();
    match strutil::find_sub_from(p, "/", 0) {
        Some(k) => {
            proof {
                lemma_find_sub_spec_at(p@, "/"@, k as int);
            }
            if k == 0 {
                false
            } else {
                let rest = p.substring_char(k, n);
                let expected = strutil::concat2(mid, name);
                proof {
                    assert(rest@ =~= p@.skip(k as int));
                }
                strutil::str_eq(rest, expected.as_str())
            }
        },
        None => {
            proof {
                lemma_find_sub_spec_none(p@, "/"@);
            }
            false
        },
    }
}

/// The contents of the first non-directory entry whose path matches
/// `binary_entry_match`, or nothing when no entry does.
pub open spec fn find_binary_spec(
    entries: Seq<(Seq<char>, bool, Seq<u8>)>,
    mid: Seq<char>,
    name: Seq<char>,
) -> Option<Seq<u8>>
    decreases entries.len(),
{
    if entries.len() == 0 {
        None
    } else if !entries[0].1 && binary_entry_match(entries[0].0, mid, name) {
        Some(entries[0].2)
    } else {
        find_binary_spec(entries.drop_first(), mid, name)
    }
}

/// Locates the runtime binary among archive entries: the index of the
/// first non-directory entry whose path is `<top>` + `mid` + `name`, with
/// `mid` of `/bin/` for tar layouts and `/` for zip layouts.
pub fn find_binary_entry(entries: &Vec<ArchiveEntry>, mid: &str, name: &str) -> (r: Option<usize>)
    ensures
        match r {
            Some(i) => i < entries@.len() && find_binary_spec(
                entry_models(entries@),
                mid@,
                name@,
            ) == Some(entries@[i as int].data@),
            None => find_binary_spec(entry_models(entries@), mid@, name@) is None,
        },
{
    let ghost ms = entry_models(entries@);
    let n = entries.len();
    let mut i: usize = 0;
    proof {
        assert(ms.skip(0) =~= ms);
        assert(ms.len() == entries@.len());
    }
    while i < n
        invariant
            i <= n,
            n == entries@.len(),
            ms == entry_models(entries@),
            ms.len() == n,
            find_binary_spec(ms, mid@, name@) == find_binary_spec(
                ms.skip(i as int),
                mid@,
                name@,
            ),
        decreases n - i,
    {
        let e = &entries[i];
        proof {
            assert(ms.skip(i as int)[0] == ms[i as int]);
            assert(ms[i as int] == entry_model(entries@[i as int]));
            assert(ms.skip(i as int).drop_first() =~= ms.skip(i as int + 1));
        }
        if !e.is_dir && is_binary_entry(e.path.as_str(), mid, name) {
            return Some(i);
        }
        i += 1;
    }
    proof {
        assert(ms.skip(n as int) =~= Seq::<(Seq<char>, bool, Seq<u8>)>::empty());
    }
    None
}

/// The entries a tar-based download yields: the buffer is decompressed as
/// xz and unpacked; when either step fails, it is decompressed as gzip
/// against the same buffer and unpacked; when that fails too, nothing.
pub open spec fn tar_entries_attempt(b: Seq<u8>) -> Option<Seq<(Seq<char>, bool, Seq<u8>)>> {
    let gz = match gz_decoded(b) {
        Some(g) => tar_entry_list(g),
        None => None,
    };
    match xz_decoded(b) {
        Some(x) => match tar_entry_list(x) {
            Some(es) => Some(es),
            None => gz,
        },
        None => gz,
    }
}

/// What installing a tar-based archive yields: the contents of the first
/// `<top>/bin/<name>` file among its entries.
pub open spec fn tar_extract_spec(b: Seq<u8>, name: Seq<char>) -> Option<Seq<u8>> {
    match tar_entries_attempt(b) {
        Some(es) => find_binary_spec(es, "/bin/"@, name),
        None => None,
    }
}

/// Extracts the runtime binary from a tar-based archive: xz decompression
/// first, gzip as the fallback against the same buffer, then the first
/// `<top>/bin/<binary_name>` file of the unpacked entries.  Fails when the
/// buffer is no readable archive, or when no entry holds the binary.
pub fn extract_tar_archive(content: &Vec<u8>, binary_name: &str) -> (r: Result<Vec<u8>, String>)
    ensures
        match r {
            Ok(bytes) => tar_extract_spec(content@, binary_name@) == Some(bytes@),
            Err(e) => tar_extract_spec(content@, binary_name@) is None && e@ == (
            if tar_entries_attempt(content@) is None {
                "Failed to extract Node.js archive"@
            } else {
                "Node.js binary not found in extracted archive"@
            }),
        },
{
    let entries = match xz_decode(content.as_slice()) {
        Some(x) => match tar_entries(x.as_slice()) {
            Some(es) => Some(es),
            None => match gz_decode(content.as_slice()) {
                Some(g) => tar_entries(g.as_slice()),
                None => None,
            },
        },
        None => match gz_decode(content.as_slice()) {
            Some(g) => tar_entries(g.as_slice()),
            None => None,
        },
    };
    match entries {
        Some(es) => {
            match find_binary_entry(&es, "/bin/", binary_name) {
                Some(i) => {
                    let mut v = es;
                    let e = v.remove(i);
                    Ok(e.data)
                },
                None => Err(String::from_str("Node.js binary not found in extracted archive")),
            }
        },
        None => Err(String::from_str("Failed to extract Node.js archive")),
    }
}

/// What installing a zip archive yields: the contents of the first
/// `<top>/<name>` file among its entries (the zip layout has no nested
/// `bin` directory).
pub open spec fn zip_extract_spec(b: Seq<u8>, name: Seq<char>) -> Option<Seq<u8>> {
    match zip_entry_list(b) {
        Some(es) => find_binary_spec(es, "/"@, name),
        None => None,
    }
}

/// Extracts the runtime binary from a zip archive: the first
/// `<top>/<binary_name>` file among its entries.  Fails when the buffer is
/// no readable zip archive, or when no entry holds the binary.
pub fn extract_zip_archive(content: &Vec<u8>, binary_name: &str) -> (r: Result<Vec<u8>, String>)
    ensures
        match r {
            Ok(bytes) => zip_extract_spec(content@, binary_name@) == Some(bytes@),
            Err(e) => zip_extract_spec(content@, binary_name@) is None && e@ == (
            if zip_entry_list(content@) is None {
                "Failed to read zip archive"@
            } else {
                "Node.js binary not found in extracted zip archive"@
            }),
        },
{
    match zip_entries(content.as_slice()) {
        Some(es) => {
            match find_binary_entry(&es, "/", binary_name) {
                Some(i) => {
                    let mut v = es;
                    let e = v.remove(i);
                    Ok(e.data)
                },
                None => Err(
                    String::from_str("Node.js binary not found in extracted zip archive"),
                ),
            }
        },
        None => Err(String::from_str("Failed to read zip archive")),
    }
}

/// Where the runtime binary is installed under the bundled directory.
pub fn bundled_install_path(bundled_dir: &str, name: &str) -> (r: String)
    ensures
        r@ == bundled_dir@ + "/"@ + name@,
{
    strutil::concat3(bundled_dir, "/", name)
}

} // verus!
