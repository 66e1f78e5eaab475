//! File discovery: which files count as found, what is known of them, and
//! what has been found so far.
//!
//! The service does not touch the file system itself. Whoever walks the
//! directories tells it what the file system says of a file.

use crate::bus::counted;
use crate::document::optional_text;
use crate::patterns::{
    excluded, hidden, included, is_hidden, matches_exclude_patterns, matches_include_patterns,
    optional_name,
};
use crate::tally::{with_one_more, Tally};
use crate::task::text_views;
use crate::text::{lowercase, str_eq, to_lowercase};
use crate::types::Timestamp;
use vstd::prelude::*;

verus! {

/// How files are looked for.
#[derive(Debug, PartialEq, Eq)]
pub struct FileDiscoveryConfig {
    /// The directories in which files are looked for.
    pub watch_directories: Vec<String>,
    /// The patterns of the files that are let in.
    pub include_patterns: Vec<String>,
    /// The patterns of the files that are kept out.
    pub exclude_patterns: Vec<String>,
    /// The largest file that counts, in bytes.
    pub max_file_size: usize,
    /// The smallest file that counts, in bytes.
    pub min_file_size: usize,
    /// How long to wait between two scans, in milliseconds.
    pub scan_interval_ms: u64,
    /// Whether directories within the directories are looked into.
    pub recursive_scan: bool,
    /// Whether the file system is asked to report changes.
    pub enable_fs_watching: bool,
    /// Files that have not been modified for more hours than this do not
    /// count.
    pub max_file_age_hours: Option<u64>,
}

impl Default for FileDiscoveryConfig {
    /// Files of one byte to a hundred mebibytes from `./test-data` that have
    /// been modified within a week, without hidden files, temporary files and
    /// logs, looked for every second.
    fn default() -> (config: Self)
        ensures
            text_views(config.watch_directories@) == seq!["./test-data"@],
            text_views(config.include_patterns@) == seq!["*"@],
            text_views(config.exclude_patterns@) == seq![".*"@, "*.tmp"@, "*.log"@],
            config.max_file_size == 104_857_600,
            config.min_file_size == 1,
            config.scan_interval_ms == 1000,
            config.recursive_scan,
            !config.enable_fs_watching,
            config.max_file_age_hours == Some(168u64),
    {
        let mut watch_directories: Vec<String> = Vec::new();
        watch_directories.push(String::from_str("./test-data"));
        let mut include_patterns: Vec<String> = Vec::new();
        include_patterns.push(String::from_str("*"));
        let mut exclude_patterns: Vec<String> = Vec::new();
        exclude_patterns.push(String::from_str(".*"));
        exclude_patterns.push(String::from_str("*.tmp"));
        exclude_patterns.push(String::from_str("*.log"));
        assert(text_views(watch_directories@) =~= seq!["./test-data"@]);
        assert(text_views(include_patterns@) =~= seq!["*"@]);
        assert(text_views(exclude_patterns@) =~= seq![".*"@, "*.tmp"@, "*.log"@]);
        FileDiscoveryConfig {
            watch_directories,
            include_patterns,
            exclude_patterns,
            max_file_size: 104_857_600,
            min_file_size: 1,
            scan_interval_ms: 1000,
            recursive_scan: true,
            enable_fs_watching: false,
            max_file_age_hours: Some(168),
        }
    }
}

/// What is known of a file.
#[derive(Debug, PartialEq, Eq)]
pub struct FileInfo {
    pub path: String,
    pub filename: String,
    /// The extension of the file, in lower case.
    pub extension: Option<String>,
    pub size_bytes: u64,
    pub modified_time: Timestamp,
    pub created_time: Timestamp,
    pub is_hidden: bool,
    pub is_symlink: bool,
    pub mime_type: Option<String>,
}

/// The mathematical value of a [`FileInfo`].
pub struct FileInfoView {
    pub path: Seq<char>,
    pub filename: Seq<char>,
    pub extension: Option<Seq<char>>,
    pub size_bytes: u64,
    pub modified_time: Timestamp,
    pub created_time: Timestamp,
    pub is_hidden: bool,
    pub is_symlink: bool,
    pub mime_type: Option<Seq<char>>,
}

impl View for FileInfo {
    type V = FileInfoView;

    open spec fn view(&self) -> FileInfoView {
        FileInfoView {
            path: self.path@,
            filename: self.filename@,
            extension: optional_text(self.extension),
            size_bytes: self.size_bytes,
            modified_time: self.modified_time,
            created_time: self.created_time,
            is_hidden: self.is_hidden,
            is_symlink: self.is_symlink,
            mime_type: optional_text(self.mime_type),
        }
    }
}

impl Clone for FileInfo {
    fn clone(&self) -> (copy: Self)
        ensures
            copy@ == self@,
    {
        FileInfo {
            path: self.path.clone(),
            filename: self.filename.clone(),
            extension: crate::document::clone_optional_text(&self.extension),
            size_bytes: self.size_bytes,
            modified_time: self.modified_time,
            created_time: self.created_time,
            is_hidden: self.is_hidden,
            is_symlink: self.is_symlink,
            mime_type: crate::document::clone_optional_text(&self.mime_type),
        }
    }
}

/// The media type that goes with an extension in lower case.
pub open spec fn media_type_of(extension: Seq<char>) -> Seq<char> {
    if extension == "txt"@ {
        "text/plain"@
    } else if extension == "md"@ {
        "text/markdown"@
    } else if extension == "html"@ || extension == "htm"@ {
        "text/html"@
    } else if extension == "pdf"@ {
        "application/pdf"@
    } else if extension == "doc"@ || extension == "docx"@ {
        "application/vnd.openxmlformats-officedocument.wordprocessingml.document"@
    } else if extension == "xls"@ || extension == "xlsx"@ {
        "application/vnd.openxmlformats-officedocument.spreadsheetml.sheet"@
    } else if extension == "ppt"@ || extension == "pptx"@ {
        "application/vnd.openxmlformats-officedocument.presentationml.presentation"@
    } else if extension == "jpg"@ || extension == "jpeg"@ {
        "image/jpeg"@
    } else if extension == "png"@ {
        "image/png"@
    } else if extension == "gif"@ {
        "image/gif"@
    } else if extension == "mp3"@ {
        "audio/mpeg"@
    } else if extension == "wav"@ {
        "audio/wav"@
    } else if extension == "mp4"@ {
        "video/mp4"@
    } else if extension == "avi"@ {
        "video/x-msvideo"@
    } else {
        "application/octet-stream"@
    }
}

/// The media type that goes with an extension in lower case.
pub fn mime_type_for_extension(extension: &str) -> (media_type: &'static str)
    ensures
        media_type@ == media_type_of(extension@),
{
    if str_eq(extension, "txt") {
        "text/plain"
    } else if str_eq(extension, "md") {
        "text/markdown"
    } else if str_eq(extension, "html") || str_eq(extension, "htm") {
        "text/html"
    } else if str_eq(extension, "pdf") {
        "application/pdf"
    } else if str_eq(extension, "doc") || str_eq(extension, "docx") {
        "application/vnd.openxmlformats-officedocument.wordprocessingml.document"
    } else if str_eq(extension, "xls") || str_eq(extension, "xlsx") {
        "application/vnd.openxmlformats-officedocument.spreadsheetml.sheet"
    } else if str_eq(extension, "ppt") || str_eq(extension, "pptx") {
        "application/vnd.openxmlformats-officedocument.presentationml.presentation"
    } else if str_eq(extension, "jpg") || str_eq(extension, "jpeg") {
        "image/jpeg"
    } else if str_eq(extension, "png") {
        "image/png"
    } else if str_eq(extension, "gif") {
        "image/gif"
    } else if str_eq(extension, "mp3") {
        "audio/mpeg"
    } else if str_eq(extension, "wav") {
        "audio/wav"
    } else if str_eq(extension, "mp4") {
        "video/mp4"
    } else if str_eq(extension, "avi") {
        "video/x-msvideo"
    } else {
        "application/octet-stream"
    }
}

/// The range of sizes that a size falls into, by name.
pub open spec fn size_range_of(size_bytes: u64) -> Seq<char> {
    if size_bytes <= 1024 {
        "0-1KB"@
    } else if size_bytes <= 10240 {
        "1-10KB"@
    } else if size_bytes <= 102400 {
        "10-100KB"@
    } else if size_bytes <= 1048576 {
        "100KB-1MB"@
    } else if size_bytes <= 10485760 {
        "1-10MB"@
    } else if size_bytes <= 104857600 {
        "10-100MB"@
    } else {
        "100MB+"@
    }
}

/// The range of sizes that a size falls into, by name.
pub fn size_range(size_bytes: u64) -> (name: &'static str)
    ensures
        name@ == size_range_of(size_bytes),
{
    if size_bytes <= 1024 {
        "0-1KB"
    } else if size_bytes <= 10240 {
        "1-10KB"
    } else if size_bytes <= 102400 {
        "10-100KB"
    } else if size_bytes <= 1048576 {
        "100KB-1MB"
    } else if size_bytes <= 10485760 {
        "1-10MB"
    } else if size_bytes <= 104857600 {
        "10-100MB"
    } else {
        "100MB+"
    }
}

/// What is known of a file, given what the file system says of it. A file
/// without a name is called `unknown`; the extension counts in lower case;
/// a file is hidden if its name begins with a dot; the media type goes by
/// the extension; and a file of which the time of creation is not known
/// counts as created when it was last modified.
pub open spec fn described(
    path: Seq<char>,
    filename: Option<Seq<char>>,
    extension: Option<Seq<char>>,
    size_bytes: u64,
    modified: Timestamp,
    created: Option<Timestamp>,
    is_symlink: bool,
) -> FileInfoView {
    let name = match filename {
        Some(n) => n,
        None => "unknown"@,
    };
    FileInfoView {
        path,
        filename: name,
        extension: match extension {
            Some(e) => Some(lowercase(e)),
            None => None,
        },
        size_bytes,
        modified_time: modified,
        created_time: match created {
            Some(c) => c,
            None => modified,
        },
        is_hidden: hidden(Some(name)),
        is_symlink,
        mime_type: match extension {
            Some(e) => Some(media_type_of(lowercase(e))),
            None => None,
        },
    }
}

/// Puts together what is known of a file.
pub fn describe_file(
    path: &str,
    filename: Option<&str>,
    extension: Option<&str>,
    size_bytes: u64,
    modified: Timestamp,
    created: Option<Timestamp>,
    is_symlink: bool,
) -> (info: FileInfo)
    ensures
        info@ == described(
            path@,
            optional_name(filename),
            optional_name(extension),
            size_bytes,
            modified,
            created,
            is_symlink,
        ),
{
    let name = match filename {
        Some(n) => String::from_str(n),
        None => String::from_str("unknown"),
    };
    let lower: Option<String> = match extension {
        Some(e) => Some(to_lowercase(e)),
        None => None,
    };
    let mime_type: Option<String> = match &lower {
        Some(e) => Some(String::from_str(mime_type_for_extension(e.as_str()))),
        None => None,
    };
    let is_hidden = is_hidden(Some(name.as_str()));
    FileInfo {
        path: String::from_str(path),
        filename: name,
        extension: lower,
        size_bytes,
        modified_time: modified,
        created_time: match created {
            Some(c) => c,
            None => modified,
        },
        is_hidden,
        is_symlink,
        mime_type,
    }
}

/// A file counts as found under a configuration: a pattern lets it in, no
/// pattern keeps it out, its size is within the bounds, and it is not known
/// to be older than the configuration allows.
pub open spec fn discoverable(
    config: FileDiscoveryConfig,
    path: Seq<char>,
    file_name: Option<Seq<char>>,
    size_bytes: u64,
    age_hours: Option<i64>,
) -> bool {
    &&& included(text_views(config.include_patterns@), path)
    &&& !excluded(text_views(config.exclude_patterns@), path, file_name)
    &&& config.min_file_size <= size_bytes <= config.max_file_size
    &&& match (config.max_file_age_hours, age_hours) {
        (Some(limit), Some(age)) => age <= limit,
        _ => true,
    }
}

/// The mathematical value of a list of files.
pub open spec fn file_views(files: Seq<FileInfo>) -> Seq<FileInfoView> {
    files.map_values(|f: FileInfo| f@)
}

/// The mathematical value of a list of references to files.
pub open spec fn file_reference_views(files: Seq<&FileInfo>) -> Seq<FileInfoView> {
    files.map_values(|f: &FileInfo| f@)
}

/// Position of the first file with the given path, or the number of files
/// where there is none.
pub open spec fn position_of_info(files: Seq<FileInfoView>, path: Seq<char>) -> int
    decreases files.len(),
{
    if files.len() == 0 {
        0
    } else if files[0].path == path {
        0
    } else {
        1 + position_of_info(files.drop_first(), path)
    }
}

/// The files after one has been found: it takes the place of the file with
/// the same path, or stands at the end if there is none.
pub open spec fn with_info(files: Seq<FileInfoView>, file: FileInfoView) -> Seq<FileInfoView> {
    let at = position_of_info(files, file.path);
    if at < files.len() {
        files.update(at, file)
    } else {
        files.push(file)
    }
}

/// The files after the first `n` of the given files have been found, one
/// after the other.
pub open spec fn with_infos(files: Seq<FileInfoView>, found: Seq<FileInfoView>, n: int) -> Seq<
    FileInfoView,
>
    decreases n,
{
    if n <= 0 {
        files
    } else {
        with_info(with_infos(files, found, n - 1), found[n - 1])
    }
}

/// The tally of extensions after the first `n` of the given files have been
/// counted. Files without extension are not counted.
pub open spec fn extensions_counted(lines: Seq<(Seq<char>, u64)>, found: Seq<FileInfoView>, n: int) -> Seq<
    (Seq<char>, u64),
>
    decreases n,
{
    if n <= 0 {
        lines
    } else {
        match found[n - 1].extension {
            Some(e) => with_one_more(extensions_counted(lines, found, n - 1), e),
            None => extensions_counted(lines, found, n - 1),
        }
    }
}

/// The tally of size ranges after the first `n` of the given files have been
/// counted.
pub open spec fn sizes_counted(lines: Seq<(Seq<char>, u64)>, found: Seq<FileInfoView>, n: int) -> Seq<
    (Seq<char>, u64),
>
    decreases n,
{
    if n <= 0 {
        lines
    } else {
        with_one_more(sizes_counted(lines, found, n - 1), size_range_of(found[n - 1].size_bytes))
    }
}

/// Those of the first `n` files that have the given extension.
pub open spec fn with_extension(files: Seq<FileInfoView>, extension: Seq<char>, n: int) -> Seq<
    FileInfoView,
>
    decreases n,
{
    if n <= 0 {
        Seq::empty()
    } else if files[n - 1].extension == Some(extension) {
        with_extension(files, extension, n - 1).push(files[n - 1])
    } else {
        with_extension(files, extension, n - 1)
    }
}

/// Those of the first `n` files whose size is within the bounds.
pub open spec fn of_size(files: Seq<FileInfoView>, min_size: u64, max_size: u64, n: int) -> Seq<
    FileInfoView,
>
    decreases n,
{
    if n <= 0 {
        Seq::empty()
    } else if min_size <= files[n - 1].size_bytes <= max_size {
        of_size(files, min_size, max_size, n - 1).push(files[n - 1])
    } else {
        of_size(files, min_size, max_size, n - 1)
    }
}

/// Those of the first `n` files that have been modified within the given
/// number of hours before `now`.
pub open spec fn modified_within(files: Seq<FileInfoView>, hours: u64, now: Timestamp, n: int) -> Seq<
    FileInfoView,
>
    decreases n,
{
    if n <= 0 {
        Seq::empty()
    } else if files[n - 1].modified_time > now - hours * 3_600_000 {
        modified_within(files, hours, now, n - 1).push(files[n - 1])
    } else {
        modified_within(files, hours, now, n - 1)
    }
}

/// The figures of a discovery service.
#[derive(Debug, PartialEq, Eq)]
pub struct FileDiscoveryStats {
    pub total_files_discovered: u64,
    pub total_directories_scanned: u64,
    pub last_scan_time: Option<Timestamp>,
    pub error_count: u64,
    pub files_by_extension: Tally,
    pub files_by_size_range: Tally,
}

/// The mathematical value of a [`FileDiscoveryStats`].
pub struct FileDiscoveryStatsView {
    pub total_files_discovered: u64,
    pub total_directories_scanned: u64,
    pub last_scan_time: Option<Timestamp>,
    pub error_count: u64,
    pub files_by_extension: Seq<(Seq<char>, u64)>,
    pub files_by_size_range: Seq<(Seq<char>, u64)>,
}

impl View for FileDiscoveryStats {
    type V = FileDiscoveryStatsView;

    open spec fn view(&self) -> FileDiscoveryStatsView {
        FileDiscoveryStatsView {
            total_files_discovered: self.total_files_discovered,
            total_directories_scanned: self.total_directories_scanned,
            last_scan_time: self.last_scan_time,
            error_count: self.error_count,
            files_by_extension: self.files_by_extension@,
            files_by_size_range: self.files_by_size_range@,
        }
    }
}

impl Default for FileDiscoveryStats {
    /// Nothing found, nothing scanned.
    fn default() -> (stats: Self)
        ensures
            stats@ == (FileDiscoveryStatsView {
                total_files_discovered: 0,
                total_directories_scanned: 0,
                last_scan_time: None,
                error_count: 0,
                files_by_extension: Seq::empty(),
                files_by_size_range: Seq::empty(),
            }),
    {
        FileDiscoveryStats {
            total_files_discovered: 0,
            total_directories_scanned: 0,
            last_scan_time: None,
            error_count: 0,
            files_by_extension: Tally::new(),
            files_by_size_range: Tally::new(),
        }
    }
}

/// The sum of a counter and a number of files, or the largest number where
/// the sum does not fit.
pub open spec fn counted_more(counter: u64, more: nat) -> u64 {
    if counter + more > u64::MAX {
        u64::MAX
    } else {
        (counter + more) as u64
    }
}

/// The state of a discovery service.
pub struct FileDiscoveryView {
    pub stats: FileDiscoveryStatsView,
    /// The files that have been found, in the order of their first finding.
    pub discovered: Seq<FileInfoView>,
    pub running: bool,
}

/// The discovery service.
pub struct FileDiscoveryService {
    config: FileDiscoveryConfig,
    stats: FileDiscoveryStats,
    discovered_files: Vec<FileInfo>,
    is_running: bool,
}

impl View for FileDiscoveryService {
    type V = FileDiscoveryView;

    closed spec fn view(&self) -> FileDiscoveryView {
        FileDiscoveryView {
            stats: self.stats@,
            discovered: file_views(self.discovered_files@),
            running: self.is_running,
        }
    }
}

impl FileDiscoveryService {
    /// The configuration of the service.
    pub closed spec fn configuration(&self) -> FileDiscoveryConfig {
        self.config
    }

    /// A service that has found nothing.
    pub fn new(config: FileDiscoveryConfig) -> (service: Self)
        ensures
            service.configuration() == config,
            service@.discovered == Seq::<FileInfoView>::empty(),
            !service@.running,
            service@.stats == (FileDiscoveryStatsView {
                total_files_discovered: 0,
                total_directories_scanned: 0,
                last_scan_time: None,
                error_count: 0,
                files_by_extension: Seq::empty(),
                files_by_size_range: Seq::empty(),
            }),
    {
        let service = FileDiscoveryService {
            config,
            stats: FileDiscoveryStats::default(),
            discovered_files: Vec::new(),
            is_running: false,
        };
        assert(service@.discovered =~= Seq::<FileInfoView>::empty());
        service
    }

    /// The configuration of the service.
    pub fn config(&self) -> (config: &FileDiscoveryConfig)
        ensures
            *config == self.configuration(),
    {
        &self.config
    }

    /// The figures of the service.
    pub fn stats(&self) -> (stats: &FileDiscoveryStats)
        ensures
            stats@ == self@.stats,
    {
        &self.stats
    }

    /// The files that have been found.
    pub fn discovered_files(&self) -> (files: &Vec<FileInfo>)
        ensures
            file_views(files@) == self@.discovered,
    {
        &self.discovered_files
    }

    /// Whether the service is looking for files.
    pub fn is_running(&self) -> (yes: bool)
        ensures
            yes == self@.running,
    {
        self.is_running
    }

    /// Whether one of the patterns of the configuration lets the path in.
    pub fn matches_include_patterns(&self, path: &str) -> (yes: bool)
        ensures
            yes == included(text_views(self.configuration().include_patterns@), path@),
    {
        matches_include_patterns(&self.config.include_patterns, path)
    }

    /// Whether one of the patterns of the configuration keeps the file out.
    pub fn matches_exclude_patterns(&self, path: &str, file_name: Option<&str>) -> (yes: bool)
        ensures
            yes == excluded(
                text_views(self.configuration().exclude_patterns@),
                path@,
                optional_name(file_name),
            ),
    {
        matches_exclude_patterns(&self.config.exclude_patterns, path, file_name)
    }

    /// Whether a file counts as found. The age of the file is given in whole
    /// hours, if it is known.
    pub fn should_discover_file(
        &self,
        path: &str,
        file_name: Option<&str>,
        size_bytes: u64,
        age_hours: Option<i64>,
    ) -> (yes: bool)
        ensures
            yes == discoverable(
                self.configuration(),
                path@,
                optional_name(file_name),
                size_bytes,
                age_hours,
            ),
    {
        if !self.matches_include_patterns(path) || self.matches_exclude_patterns(path, file_name) {
            return false;
        }
        if (size_bytes as u128) < (self.config.min_file_size as u128) || (size_bytes as u128) > (
        self.config.max_file_size as u128) {
            return false;
        }
        match (self.config.max_file_age_hours, age_hours) {
            (Some(limit), Some(age)) => (age as i128) <= (limit as i128),
            _ => true,
        }
    }

    /// Takes note that a directory has been scanned.
    pub fn note_scan(&mut self)
        ensures
            final(self).configuration() == old(self).configuration(),
            final(self)@ == (FileDiscoveryView {
                stats: FileDiscoveryStatsView {
                    total_directories_scanned: counted(old(self)@.stats.total_directories_scanned),
                    ..old(self)@.stats
                },
                ..old(self)@
            }),
    {
        if self.stats.total_directories_scanned < u64::MAX {
            self.stats.total_directories_scanned = self.stats.total_directories_scanned + 1;
        }
    }

    /// Counts a file or a directory that could not be looked at.
    pub fn note_error(&mut self)
        ensures
            final(self).configuration() == old(self).configuration(),
            final(self)@ == (FileDiscoveryView {
                stats: FileDiscoveryStatsView {
                    error_count: counted(old(self)@.stats.error_count),
                    ..old(self)@.stats
                },
                ..old(self)@
            }),
    {
        if self.stats.error_count < u64::MAX {
            self.stats.error_count = self.stats.error_count + 1;
        }
    }

    fn find(&self, path: &str) -> (at: usize)
        ensures
            at == position_of_info(self@.discovered, path@),
            at <= self@.discovered.len(),
    {
        let wanted = String::from_str(path);
        let ghost views = file_views(self.discovered_files@);
        let mut at: usize = 0;
        assert(views.skip(0) =~= views);
        while at < self.discovered_files.len() && !(self.discovered_files[at].path == wanted)
            invariant
                at <= self.discovered_files@.len(),
                wanted@ == path@,
                views == file_views(self.discovered_files@),
                position_of_info(views, path@) == at + position_of_info(
                    views.skip(at as int),
                    path@,
                ),
            decreases self.discovered_files@.len() - at,
        {
            proof {
                let rest = views.skip(at as int);
                assert(rest[0] == views[at as int]);
                assert(rest.drop_first() =~= views.skip(at + 1));
            }
            at = at + 1;
        }
        proof {
            let rest = views.skip(at as int);
            if at < self.discovered_files@.len() {
                assert(rest[0] == views[at as int]);
            }
        }
        at
    }

    /// Takes note of files that have been found: each takes the place of the
    /// file with the same path that was found before, or is added.
    pub fn record(&mut self, found: &Vec<FileInfo>)
        ensures
            final(self).configuration() == old(self).configuration(),
            final(self)@ == (FileDiscoveryView {
                discovered: with_infos(
                    old(self)@.discovered,
                    file_views(found@),
                    found@.len() as int,
                ),
                ..old(self)@
            }),
    {
        let ghost views = file_views(found@);
        let mut n: usize = 0;
        while n < found.len()
            invariant
                n <= found@.len(),
                views == file_views(found@),
                self.configuration() == old(self).configuration(),
                self@ == (FileDiscoveryView {
                    discovered: with_infos(old(self)@.discovered, views, n as int),
                    ..old(self)@
                }),
            decreases found@.len() - n,
        {
            assert(views[n as int] == found@[n as int]@);
            let ghost before = self@.discovered;
            let mut file = found[n].clone();
            let ghost given = file@;
            let at = self.find(file.path.as_str());
            if at < self.discovered_files.len() {
                let slot = &mut self.discovered_files[at];
                core::mem::swap(slot, &mut file);
                assert(self@.discovered =~= before.update(at as int, given));
            } else {
                self.discovered_files.push(file);
                assert(self@.discovered =~= before.push(given));
            }
            n = n + 1;
        }
    }

    /// Counts files that have been found at `now`: by their number, by
    /// their extensions and by their sizes.
    pub fn update_stats(&mut self, new_files: &Vec<FileInfo>, now: Timestamp)
        ensures
            final(self).configuration() == old(self).configuration(),
            final(self)@ == (FileDiscoveryView {
                stats: FileDiscoveryStatsView {
                    total_files_discovered: counted_more(
                        old(self)@.stats.total_files_discovered,
                        new_files@.len(),
                    ),
                    last_scan_time: Some(now),
                    files_by_extension: extensions_counted(
                        old(self)@.stats.files_by_extension,
                        file_views(new_files@),
                        new_files@.len() as int,
                    ),
                    files_by_size_range: sizes_counted(
                        old(self)@.stats.files_by_size_range,
                        file_views(new_files@),
                        new_files@.len() as int,
                    ),
                    ..old(self)@.stats
                },
                ..old(self)@
            }),
    {
        let more: u64 = if new_files.len() as u128 > u64::MAX as u128 {
            u64::MAX
        } else {
            new_files.len() as u64
        };
        self.stats.total_files_discovered = if more <= u64::MAX
            - self.stats.total_files_discovered {
            self.stats.total_files_discovered + more
        } else {
            u64::MAX
        };
        self.stats.last_scan_time = Some(now);
        let ghost views = file_views(new_files@);
        let mut n: usize = 0;
        while n < new_files.len()
            invariant
                n <= new_files@.len(),
                views == file_views(new_files@),
                self.configuration() == old(self).configuration(),
                self@.discovered == old(self)@.discovered,
                self@.running == old(self)@.running,
                self@.stats == (FileDiscoveryStatsView {
                    total_files_discovered: counted_more(
                        old(self)@.stats.total_files_discovered,
                        new_files@.len(),
                    ),
                    last_scan_time: Some(now),
                    files_by_extension: extensions_counted(
                        old(self)@.stats.files_by_extension,
                        views,
                        n as int,
                    ),
                    files_by_size_range: sizes_counted(
                        old(self)@.stats.files_by_size_range,
                        views,
                        n as int,
                    ),
                    ..old(self)@.stats
                }),
            decreases new_files@.len() - n,
        {
            assert(views[n as int] == new_files@[n as int]@);
            match &new_files[n].extension {
                Some(e) => {
                    self.stats.files_by_extension.add(e.as_str());
                },
                None => {},
            }
            self.stats.files_by_size_range.add(size_range(new_files[n].size_bytes));
            n = n + 1;
        }
    }

    /// Takes note that the service has begun to look for files.
    pub fn start(&mut self)
        ensures
            final(self).configuration() == old(self).configuration(),
            final(self)@ == (FileDiscoveryView { running: true, ..old(self)@ }),
    {
        self.is_running = true;
    }

    /// Takes note that the service is to stop.
    pub fn stop(&mut self)
        ensures
            final(self).configuration() == old(self).configuration(),
            final(self)@ == (FileDiscoveryView { running: false, ..old(self)@ }),
    {
        self.is_running = false;
    }

    /// The files that have the given extension, in the order of their
    /// finding.
    pub fn get_files_by_extension(&self, extension: &str) -> (files: Vec<&FileInfo>)
        ensures
            file_reference_views(files@) == with_extension(
                self@.discovered,
                extension@,
                self@.discovered.len() as int,
            ),
    {
        let wanted = String::from_str(extension);
        let mut found: Vec<&FileInfo> = Vec::new();
        let mut n: usize = 0;
        assert(file_reference_views(found@) =~= Seq::<FileInfoView>::empty());
        while n < self.discovered_files.len()
            invariant
                n <= self.discovered_files@.len(),
                wanted@ == extension@,
                file_reference_views(found@) == with_extension(
                    self@.discovered,
                    extension@,
                    n as int,
                ),
            decreases self.discovered_files@.len() - n,
        {
            assert(self@.discovered[n as int] == self.discovered_files@[n as int]@);
            let ghost before = file_reference_views(found@);
            let same = match &self.discovered_files[n].extension {
                Some(e) => *e == wanted,
                None => false,
            };
            if same {
                found.push(&self.discovered_files[n]);
                assert(file_reference_views(found@) =~= before.push(self@.discovered[n as int]));
            }
            n = n + 1;
        }
        found
    }

    /// The files whose size is within the bounds, in the order of their
    /// finding.
    pub fn get_files_by_size_range(&self, min_size: u64, max_size: u64) -> (files: Vec<&FileInfo>)
        ensures
            file_reference_views(files@) == of_size(
                self@.discovered,
                min_size,
                max_size,
                self@.discovered.len() as int,
            ),
    {
        let mut found: Vec<&FileInfo> = Vec::new();
        let mut n: usize = 0;
        assert(file_reference_views(found@) =~= Seq::<FileInfoView>::empty());
        while n < self.discovered_files.len()
            invariant
                n <= self.discovered_files@.len(),
                file_reference_views(found@) == of_size(
                    self@.discovered,
                    min_size,
                    max_size,
                    n as int,
                ),
            decreases self.discovered_files@.len() - n,
        {
            assert(self@.discovered[n as int] == self.discovered_files@[n as int]@);
            let ghost before = file_reference_views(found@);
            let size = self.discovered_files[n].size_bytes;
            if size >= min_size && size <= max_size {
                found.push(&self.discovered_files[n]);
                assert(file_reference_views(found@) =~= before.push(self@.discovered[n as int]));
            }
            n = n + 1;
        }
        found
    }

    /// The files that have been modified within the given number of hours
    /// before `now`, in the order of their finding.
    pub fn get_recently_modified_files(&self, hours: u64, now: Timestamp) -> (files: Vec<&FileInfo>)
        ensures
            file_reference_views(files@) == modified_within(
                self@.discovered,
                hours,
                now,
                self@.discovered.len() as int,
            ),
    {
        let cutoff: i128 = now as i128 - (hours as i128) * 3_600_000;
        let mut found: Vec<&FileInfo> = Vec::new();
        let mut n: usize = 0;
        assert(file_reference_views(found@) =~= Seq::<FileInfoView>::empty());
        while n < self.discovered_files.len()
            invariant
                n <= self.discovered_files@.len(),
                cutoff == now - hours * 3_600_000,
                file_reference_views(found@) == modified_within(
                    self@.discovered,
                    hours,
                    now,
                    n as int,
                ),
            decreases self.discovered_files@.len() - n,
        {
            assert(self@.discovered[n as int] == self.discovered_files@[n as int]@);
            let ghost before = file_reference_views(found@);
            if (self.discovered_files[n].modified_time as i128) > cutoff {
                found.push(&self.discovered_files[n]);
                assert(file_reference_views(found@) =~= before.push(self@.discovered[n as int]));
            }
            n = n + 1;
        }
        found
    }
}

} // verus!
