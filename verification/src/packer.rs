//! The decisions of the packer: how many files and bytes a selection holds,
//! the launcher script placed before the container, the names of archive
//! entries and the metadata record.  Walking the file system, compressing and
//! writing the image are left to the caller, which hands in what it found.

use vstd::prelude::*;
use crate::metadata::{encode_object, json_object_bytes, object_reads_back, APP_NAME_KEY};
use crate::text::{ascii_lower, lowercase, replace_all, replace_char, to_lowercase};

verus! {

/// What the caller asks the packer to do.
#[derive(Debug, Clone)]
pub struct PackConfig {
    pub files: Vec<String>,
    pub output_path: String,
    pub app_name: String,
    pub app_version: String,
    pub entry_point: String,
}

/// What the packer reports after writing an image.
#[derive(Debug, Clone)]
pub struct PackResult {
    pub success: bool,
    pub output_file: String,
    pub size_bytes: u64,
    pub message: String,
}

/// A progress notification of the packer.
#[derive(Debug, Clone)]
pub struct ProgressEvent {
    pub percent: u32,
    pub message: String,
    pub current_file: String,
}

/// One entry of a file listing.
#[derive(Debug, Clone)]
pub struct FileInfo {
    pub name: String,
    pub path: String,
    pub size: u64,
    pub is_dir: bool,
}

/// What the caller found at one selected path.
#[derive(Debug, Clone)]
pub enum PathScan {
    /// A regular file of the given size (0 when its size could not be read).
    File { size: u64 },
    /// A directory; the sizes of the regular files found below it.
    Dir { file_sizes: Vec<u64> },
    /// Neither a file nor a directory.
    Other,
}

/// Why packing stops.
#[derive(Debug, Clone, PartialEq, Eq)]
pub enum PackError {
    /// A selected path does not exist.
    NotFound { path: String },
    /// Writing the archive or the image failed, or the metadata record could
    /// not be encoded; the text says why.
    Io { message: String },
}

pub const PACK_NOT_FOUND_PREFIX: &'static str = "Archivo no encontrado: ";

/// The text the packer reports for an error.
pub open spec fn pack_error_text(e: PackError) -> Seq<char> {
    match e {
        PackError::NotFound { path } => PACK_NOT_FOUND_PREFIX@ + path@,
        PackError::Io { message } => message@,
    }
}

impl PackError {
    /// The text reported for this error.
    pub fn message(&self) -> (r: String)
        ensures
            r@ == pack_error_text(*self),
    {
        match self {
            PackError::NotFound { path } => String::from_str(PACK_NOT_FOUND_PREFIX).concat(path.as_str()),
            PackError::Io { message } => message.clone(),
        }
    }
}

/// A progress event of the packer.
pub fn progress(percent: u32, message: &str, current_file: &str) -> (ev: ProgressEvent)
    ensures
        ev.percent == percent,
        ev.message@ == message@,
        ev.current_file@ == current_file@,
{
    ProgressEvent {
        percent,
        message: String::from_str(message),
        current_file: String::from_str(current_file),
    }
}

// ---------------------------------------------------------------------------
// Counting

/// Sum of a sequence of sizes.
pub open spec fn sum_sizes(sizes: Seq<u64>) -> nat
    decreases sizes.len(),
{
    if sizes.len() == 0 {
        0
    } else {
        sum_sizes(sizes.drop_last()) + sizes.last() as nat
    }
}

/// Bytes held at one scanned path.
pub open spec fn scan_size_spec(scan: PathScan) -> nat {
    match scan {
        PathScan::File { size } => size as nat,
        PathScan::Dir { file_sizes } => sum_sizes(file_sizes@),
        PathScan::Other => 0,
    }
}

/// Files held at one scanned path.
pub open spec fn scan_count_spec(scan: PathScan) -> nat {
    match scan {
        PathScan::File { .. } => 1,
        PathScan::Dir { file_sizes } => file_sizes@.len(),
        PathScan::Other => 0,
    }
}

/// Bytes held by all scanned paths.
pub open spec fn total_size_spec(scans: Seq<PathScan>) -> nat
    decreases scans.len(),
{
    if scans.len() == 0 {
        0
    } else {
        total_size_spec(scans.drop_last()) + scan_size_spec(scans.last())
    }
}

/// Files held by all scanned paths.
pub open spec fn total_count_spec(scans: Seq<PathScan>) -> nat
    decreases scans.len(),
{
    if scans.len() == 0 {
        0
    } else {
        total_count_spec(scans.drop_last()) + scan_count_spec(scans.last())
    }
}

pub proof fn lemma_sum_sizes_prefix(sizes: Seq<u64>, i: int)
    requires
        0 <= i <= sizes.len(),
    ensures
        sum_sizes(sizes.take(i)) <= sum_sizes(sizes),
    decreases sizes.len() - i,
{
    if i < sizes.len() {
        lemma_sum_sizes_prefix(sizes, i + 1);
        assert(sizes.take(i + 1).drop_last() =~= sizes.take(i));
    } else {
        assert(sizes.take(i) =~= sizes);
    }
}

/// Bytes held at one scanned path: a file's size, or the sum of the sizes of
/// the files below a directory.
pub fn scan_size(scan: &PathScan) -> (n: u64)
    requires
        scan_size_spec(*scan) <= u64::MAX,
    ensures
        n == scan_size_spec(*scan),
{
    match scan {
        PathScan::File { size } => *size,
        PathScan::Dir { file_sizes } => {
            let mut total: u64 = 0;
            let mut i: usize = 0;
            while i < file_sizes.len()
                invariant
                    i <= file_sizes@.len(),
                    sum_sizes(file_sizes@) <= u64::MAX,
                    total == sum_sizes(file_sizes@.take(i as int)),
                decreases file_sizes.len() - i,
            {
                proof {
                    lemma_sum_sizes_prefix(file_sizes@, i + 1);
                    assert(file_sizes@.take(i + 1).drop_last() =~= file_sizes@.take(i as int));
                }
                total = total + file_sizes[i];
                i += 1;
            }
            assert(file_sizes@.take(file_sizes@.len() as int) =~= file_sizes@);
            total
        },
        PathScan::Other => 0,
    }
}

pub proof fn lemma_total_size_prefix(scans: Seq<PathScan>, i: int)
    requires
        0 <= i <= scans.len(),
    ensures
        total_size_spec(scans.take(i)) <= total_size_spec(scans),
    decreases scans.len() - i,
{
    if i < scans.len() {
        lemma_total_size_prefix(scans, i + 1);
        assert(scans.take(i + 1).drop_last() =~= scans.take(i));
    } else {
        assert(scans.take(i) =~= scans);
    }
}

pub proof fn lemma_total_count_prefix(scans: Seq<PathScan>, i: int)
    requires
        0 <= i <= scans.len(),
    ensures
        total_count_spec(scans.take(i)) <= total_count_spec(scans),
    decreases scans.len() - i,
{
    if i < scans.len() {
        lemma_total_count_prefix(scans, i + 1);
        assert(scans.take(i + 1).drop_last() =~= scans.take(i));
    } else {
        assert(scans.take(i) =~= scans);
    }
}

/// Total bytes of the selection.
pub fn calculate_total_size(scans: &[PathScan]) -> (n: u64)
    requires
        total_size_spec(scans@) <= u64::MAX,
    ensures
        n == total_size_spec(scans@),
{
    let mut total: u64 = 0;
    let mut i: usize = 0;
    while i < scans.len()
        invariant
            i <= scans@.len(),
            total_size_spec(scans@) <= u64::MAX,
            total == total_size_spec(scans@.take(i as int)),
        decreases scans.len() - i,
    {
        proof {
            lemma_total_size_prefix(scans@, i + 1);
            assert(scans@.take(i + 1).drop_last() =~= scans@.take(i as int));
        }
        let here = scan_size(&scans[i]);
        total = total + here;
        i += 1;
    }
    assert(scans@.take(scans@.len() as int) =~= scans@);
    total
}

/// Total number of files of the selection.
pub fn count_files(scans: &[PathScan]) -> (n: usize)
    requires
        total_count_spec(scans@) <= usize::MAX,
    ensures
        n == total_count_spec(scans@),
{
    let mut count: usize = 0;
    let mut i: usize = 0;
    while i < scans.len()
        invariant
            i <= scans@.len(),
            total_count_spec(scans@) <= usize::MAX,
            count == total_count_spec(scans@.take(i as int)),
        decreases scans.len() - i,
    {
        proof {
            lemma_total_count_prefix(scans@, i + 1);
            assert(scans@.take(i + 1).drop_last() =~= scans@.take(i as int));
        }
        let here: usize = match &scans[i] {
            PathScan::File { .. } => 1,
            PathScan::Dir { file_sizes } => file_sizes.len(),
            PathScan::Other => 0,
        };
        count = count + here;
        i += 1;
    }
    assert(scans@.take(scans@.len() as int) =~= scans@);
    count
}

// ---------------------------------------------------------------------------
// Launcher script

pub const STUB_HEAD: &'static str = "@echo off\r\n:: Fluxi Portable Launcher — by Fluxionics\r\nsetlocal\r\nset \"TMP_DIR=%TEMP%\\fluxi_";
/// Creates the folder and unpacks the image into it.
pub const STUB_UNPACK: &'static str = "\"\r\nif not exist \"%TMP_DIR%\" mkdir \"%TMP_DIR%\"\r\npowershell -NoProfile -Command \"Expand-Archive -Force -Path '%~f0' -DestinationPath '%TMP_DIR%'\"\r\n";
/// Starts the entry point and waits until it exits.
pub const STUB_RUN: &'static str = "start \"\" /wait \"%TMP_DIR%\\";
/// Removes the folder with everything in it, so nothing is left behind.
pub const STUB_CLEANUP: &'static str = "\"\r\nrd /s /q \"%TMP_DIR%\"\r\n";
pub const STUB_END: &'static str = "endlocal\r\nexit /b\r\n";

/// The folder-safe form of an already lower-cased application name: spaces
/// become underscores.
pub open spec fn safe_name(lowered: Seq<char>) -> Seq<char> {
    replace_all(lowered, ' ', '_')
}

/// The launcher script for an entry point and a lower-cased application name:
/// it unpacks the image into a temporary folder named after the application,
/// runs the entry point from there until it exits, then removes the folder.
pub open spec fn launcher_text(entry_point: Seq<char>, lowered_name: Seq<char>) -> Seq<char> {
    STUB_HEAD@ + safe_name(lowered_name) + STUB_UNPACK@ + STUB_RUN@ + entry_point + STUB_CLEANUP@
        + STUB_END@
}

/// The launcher script: it unpacks the image into a temporary folder named
/// after the application, runs the entry point from there and waits for it,
/// and removes the folder before it exits.
pub fn launcher_script(entry_point: &str, lowered_name: &str) -> (s: String)
    ensures
        s@ == launcher_text(entry_point@, lowered_name@),
{
    let safe = replace_char(lowered_name, ' ', '_');
    let mut s = String::from_str(STUB_HEAD);
    s.append(safe.as_str());
    s.append(STUB_UNPACK);
    s.append(STUB_RUN);
    s.append(entry_point);
    s.append(STUB_CLEANUP);
    s.append(STUB_END);
    s
}

/// The launcher script for an application: its name is lower-cased and its
/// spaces become underscores.
pub fn build_stub(entry_point: &str, app_name: &str) -> (s: String)
    ensures
        s@ == launcher_text(entry_point@, lowercase(app_name@)),
        vstd::utf8::is_ascii_chars(app_name@) ==> s@ == launcher_text(
            entry_point@,
            ascii_lower(app_name@),
        ),
{
    let lowered = to_lowercase(app_name);
    launcher_script(entry_point, lowered.as_str())
}

/// The name of an archive entry: the path relative to the selection's parent
/// with every backslash turned into a slash.
pub fn zip_entry_name(relative: &str) -> (name: String)
    ensures
        name@ == replace_all(relative@, '\\', '/'),
{
    replace_char(relative, '\\', '/')
}

// ---------------------------------------------------------------------------
// Metadata record

pub const PACKED_BY: &'static str = "Fluxi v1.0.0";
pub const BRAND: &'static str = "Fluxionics";
pub const LICENSE: &'static str = "Apache-2.0";

/// The string members of the metadata record.
pub open spec fn text_members_spec(config: PackConfig) -> Seq<(Seq<char>, Seq<char>)> {
    seq![
        (APP_NAME_KEY@, config.app_name@),
        ("app_version"@, config.app_version@),
        ("entry_point"@, config.entry_point@),
        ("packed_by"@, PACKED_BY@),
        ("brand"@, BRAND@),
        ("license"@, LICENSE@),
    ]
}

/// The integer members of the metadata record.
pub open spec fn number_members_spec(original_size: u64, total_files: usize, timestamp: u64) -> Seq<(Seq<char>, u64)> {
    seq![
        ("original_size"@, original_size),
        ("total_files"@, total_files as u64),
        ("timestamp"@, timestamp),
    ]
}

/// The members of the metadata record: the configuration's name, version and
/// entry point, the packer's name, brand and licence, and the selection's
/// size, file count and the packing time in seconds since the Unix epoch.
pub fn metadata_members(config: &PackConfig, original_size: u64, total_files: usize, timestamp: u64) -> (r: (Vec<(String, String)>, Vec<(String, u64)>))
    ensures
        r.0.deep_view() == text_members_spec(*config),
        r.1.deep_view() == number_members_spec(original_size, total_files, timestamp),
{
    let mut text: Vec<(String, String)> = Vec::new();
    text.push((String::from_str(APP_NAME_KEY), config.app_name.clone()));
    text.push((String::from_str("app_version"), config.app_version.clone()));
    text.push((String::from_str("entry_point"), config.entry_point.clone()));
    text.push((String::from_str("packed_by"), String::from_str(PACKED_BY)));
    text.push((String::from_str("brand"), String::from_str(BRAND)));
    text.push((String::from_str("license"), String::from_str(LICENSE)));
    let mut numbers: Vec<(String, u64)> = Vec::new();
    numbers.push((String::from_str("original_size"), original_size));
    numbers.push((String::from_str("total_files"), total_files as u64));
    numbers.push((String::from_str("timestamp"), timestamp));
    assert(text.deep_view() =~= text_members_spec(*config));
    assert(numbers.deep_view() =~= number_members_spec(original_size, total_files, timestamp));
    (text, numbers)
}

/// The metadata record as JSON bytes; encoding it always succeeds.
pub fn build_metadata(config: &PackConfig, original_size: u64, total_files: usize, timestamp: u64) -> (r: Result<Vec<u8>, PackError>)
    ensures
        r is Ok,
        r matches Ok(bytes) ==> bytes@ == json_object_bytes(
            text_members_spec(*config),
            number_members_spec(original_size, total_files, timestamp),
        ),
        r matches Ok(bytes) ==> object_reads_back(
            bytes@,
            text_members_spec(*config),
            number_members_spec(original_size, total_files, timestamp),
        ),
{
    let (text, numbers) = metadata_members(config, original_size, total_files, timestamp);
    match encode_object(&text, &numbers) {
        Ok(bytes) => Ok(bytes),
        Err(message) => Err(PackError::Io { message }),
    }
}

// ---------------------------------------------------------------------------
// Laws

/// The folder name in the launcher never holds a space.
pub proof fn lemma_safe_name_has_no_space(lowered: Seq<char>)
    ensures
        !safe_name(lowered).contains(' '),
{
    let safe = safe_name(lowered);
    assert forall|i: int| 0 <= i < safe.len() implies safe[i] != ' ' by {}
}

/// The sizes and file counts of a selection add up over its parts.
pub proof fn lemma_totals_add_up(a: Seq<PathScan>, b: Seq<PathScan>)
    ensures
        total_size_spec(a + b) == total_size_spec(a) + total_size_spec(b),
        total_count_spec(a + b) == total_count_spec(a) + total_count_spec(b),
    decreases b.len(),
{
    if b.len() == 0 {
        assert(a + b =~= a);
    } else {
        lemma_totals_add_up(a, b.drop_last());
        assert((a + b).drop_last() =~= a + b.drop_last());
    }
}

/// The launcher of an ASCII-named application is the same whether the name
/// is given as is, already lower-cased, or with its spaces already turned into
/// underscores.
pub proof fn lemma_stub_name_normalized(entry_point: Seq<char>, app_name: Seq<char>)
    requires
        vstd::utf8::is_ascii_chars(app_name),
    ensures
        launcher_text(entry_point, ascii_lower(app_name)) == launcher_text(
            entry_point,
            ascii_lower(ascii_lower(app_name)),
        ),
        launcher_text(entry_point, ascii_lower(app_name)) == launcher_text(
            entry_point,
            ascii_lower(replace_all(app_name, ' ', '_')),
        ),
        vstd::utf8::is_ascii_chars(ascii_lower(app_name)),
        vstd::utf8::is_ascii_chars(replace_all(app_name, ' ', '_')),
{
    let low = ascii_lower(app_name);
    assert forall|i: int| 0 <= i < low.len() implies '\0' <= #[trigger] low[i] <= '\u{7f}' by {
        assert('\0' <= app_name[i] <= '\u{7f}');
    }
    assert(ascii_lower(low) =~= low);
    let under = replace_all(app_name, ' ', '_');
    assert forall|i: int| 0 <= i < under.len() implies '\0' <= #[trigger] under[i] <= '\u{7f}' by {
        assert('\0' <= app_name[i] <= '\u{7f}');
    }
    assert(safe_name(ascii_lower(under)) =~= safe_name(low));
}

/// Selections without files hold no bytes.
pub proof fn lemma_no_files_no_bytes(scans: Seq<PathScan>)
    requires
        total_count_spec(scans) == 0,
    ensures
        total_size_spec(scans) == 0,
    decreases scans.len(),
{
    if scans.len() > 0 {
        lemma_no_files_no_bytes(scans.drop_last());
        match scans.last() {
            PathScan::Dir { file_sizes } => {
                assert(file_sizes@.len() == 0);
            },
            _ => {},
        }
    }
}

/// The layout of a launcher script: the fixed head, the folder name (the
/// lower-cased application name with each space turned into an underscore,
/// character by character), the unpacking lines, the run line with the entry
/// point exactly as given, the removal of the folder, and the end.
pub proof fn lemma_launcher_layout(entry_point: Seq<char>, lowered_name: Seq<char>)
    ensures
        ({
            let t = launcher_text(entry_point, lowered_name);
            let name_at = STUB_HEAD@.len() as int;
            let unpack_at = name_at + lowered_name.len();
            let run_at = unpack_at + STUB_UNPACK@.len();
            let entry_at = run_at + STUB_RUN@.len();
            let cleanup_at = entry_at + entry_point.len();
            let end_at = cleanup_at + STUB_CLEANUP@.len();
            &&& t.len() == end_at + STUB_END@.len()
            &&& t.subrange(0, name_at) == STUB_HEAD@
            &&& forall|i: int|
                0 <= i < lowered_name.len() ==> #[trigger] t[name_at + i] == (if lowered_name[i]
                    == ' ' {
                    '_'
                } else {
                    lowered_name[i]
                })
            &&& t.subrange(unpack_at, run_at) == STUB_UNPACK@
            &&& t.subrange(run_at, entry_at) == STUB_RUN@
            &&& t.subrange(entry_at, cleanup_at) == entry_point
            &&& t.subrange(cleanup_at, end_at) == STUB_CLEANUP@
            &&& t.subrange(end_at, t.len() as int) == STUB_END@
        }),
{
    let t = launcher_text(entry_point, lowered_name);
    let name_at = STUB_HEAD@.len() as int;
    let unpack_at = name_at + lowered_name.len();
    let run_at = unpack_at + STUB_UNPACK@.len();
    let entry_at = run_at + STUB_RUN@.len();
    let cleanup_at = entry_at + entry_point.len();
    let end_at = cleanup_at + STUB_CLEANUP@.len();
    assert(t.subrange(0, name_at) =~= STUB_HEAD@);
    assert forall|i: int| 0 <= i < lowered_name.len() implies #[trigger] t[name_at + i] == (if lowered_name[i]
        == ' ' {
        '_'
    } else {
        lowered_name[i]
    }) by {
        assert(t[name_at + i] == safe_name(lowered_name)[i]);
    }
    assert(t.subrange(unpack_at, run_at) =~= STUB_UNPACK@);
    assert(t.subrange(run_at, entry_at) =~= STUB_RUN@);
    assert(t.subrange(entry_at, cleanup_at) =~= entry_point);
    assert(t.subrange(cleanup_at, end_at) =~= STUB_CLEANUP@);
    assert(t.subrange(end_at, t.len() as int) =~= STUB_END@);
}

/// A scanned file holds exactly its size and counts as one file; a scanned
/// directory holds the sum of its files' sizes and counts as many files as it
/// lists; anything else holds nothing.
pub proof fn lemma_scan_measures(size: u64, file_sizes: Vec<u64>)
    ensures
        scan_size_spec(PathScan::File { size }) == size as nat,
        scan_count_spec(PathScan::File { size }) == 1,
        scan_size_spec(PathScan::Dir { file_sizes }) == sum_sizes(file_sizes@),
        scan_count_spec(PathScan::Dir { file_sizes }) == file_sizes@.len(),
        scan_size_spec(PathScan::Other) == 0,
        scan_count_spec(PathScan::Other) == 0,
{
}

/// The sum of no sizes is 0, and one more size adds itself.
pub proof fn lemma_sum_sizes_push(sizes: Seq<u64>, x: u64)
    ensures
        sum_sizes(Seq::empty()) == 0,
        sum_sizes(sizes.push(x)) == sum_sizes(sizes) + x,
{
    assert(sizes.push(x).drop_last() =~= sizes);
}

/// A selection of no paths holds nothing; one more path adds what it holds;
/// a selection of a single file holds exactly that file's size, whatever
/// its size.
pub proof fn lemma_selection_totals(scans: Seq<PathScan>, scan: PathScan, size: u64)
    ensures
        total_size_spec(Seq::empty()) == 0,
        total_count_spec(Seq::empty()) == 0,
        total_size_spec(scans.push(scan)) == total_size_spec(scans) + scan_size_spec(scan),
        total_count_spec(scans.push(scan)) == total_count_spec(scans) + scan_count_spec(scan),
        total_size_spec(seq![PathScan::File { size }]) == size as nat,
        total_count_spec(seq![PathScan::File { size }]) == 1,
{
    assert(scans.push(scan).drop_last() =~= scans);
    let one = seq![PathScan::File { size }];
    assert(one.drop_last() =~= Seq::<PathScan>::empty());
}

} // verus!
