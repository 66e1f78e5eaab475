use swarm::file_discovery::{
    describe_file, mime_type_for_extension, size_range, FileDiscoveryConfig, FileDiscoveryService,
    FileDiscoveryStats, FileInfo,
};

fn texts(items: &[&str]) -> Vec<String> {
    items.iter().map(|s| s.to_string()).collect()
}

fn create_test_config() -> FileDiscoveryConfig {
    FileDiscoveryConfig {
        watch_directories: texts(&["./test-data"]),
        include_patterns: texts(&["*"]),
        exclude_patterns: texts(&[".*", "*.tmp"]),
        max_file_size: 1024 * 1024,
        min_file_size: 1,
        scan_interval_ms: 100,
        recursive_scan: true,
        enable_fs_watching: false,
        max_file_age_hours: Some(24),
    }
}

fn file(path: &str, size: u64, modified: i64) -> FileInfo {
    let name = path.rsplit('/').next();
    let extension = name.and_then(|n| n.rsplit_once('.')).map(|(_, e)| e);
    describe_file(path, name, extension, size, modified, None, false)
}

#[test]
fn test_file_discovery_creation() {
    let config = create_test_config();
    let discovery = FileDiscoveryService::new(config);

    assert_eq!(discovery.discovered_files().len(), 0);
    assert_eq!(discovery.stats().total_files_discovered, 0);
}

#[test]
fn file_discovery_test_include_pattern_matching() {
    let config = create_test_config();
    let discovery = FileDiscoveryService::new(config);

    assert!(discovery.matches_include_patterns("test.txt"));
    assert!(discovery.matches_include_patterns("document.md"));
}

#[test]
fn file_discovery_test_exclude_pattern_matching() {
    let config = create_test_config();
    let discovery = FileDiscoveryService::new(config);

    assert!(discovery.matches_exclude_patterns(".hidden.txt", Some(".hidden.txt")));
    assert!(discovery.matches_exclude_patterns("temp.tmp", Some("temp.tmp")));
    assert!(!discovery.matches_exclude_patterns("visible.txt", Some("visible.txt")));
}

#[test]
fn test_should_discover_file() {
    let config = create_test_config();
    let discovery = FileDiscoveryService::new(config);

    assert!(discovery.should_discover_file("test.txt", Some("test.txt"), 1000, None));
    assert!(!discovery.should_discover_file(".hidden.txt", Some(".hidden.txt"), 1000, None));
    assert!(!discovery.should_discover_file("temp.tmp", Some("temp.tmp"), 1000, None));
    assert!(!discovery.should_discover_file("large.txt", Some("large.txt"), 2 * 1024 * 1024, None));
}

#[test]
fn a_file_is_found_if_its_size_and_age_are_within_the_bounds() {
    let discovery = FileDiscoveryService::new(create_test_config());
    let found = |size: u64, age: Option<i64>| {
        discovery.should_discover_file("a.txt", Some("a.txt"), size, age)
    };

    assert!(!found(0, None));
    assert!(found(1, None));
    assert!(found(1024 * 1024, None));
    assert!(!found(1024 * 1024 + 1, None));
    assert!(found(10, Some(24)));
    assert!(!found(10, Some(25)));
    assert!(found(10, Some(0)));
    assert!(found(10, Some(-3)));

    let mut config = create_test_config();
    config.max_file_age_hours = None;
    config.include_patterns = texts(&["*.md"]);
    let open = FileDiscoveryService::new(config);
    assert!(open.should_discover_file("a.md", Some("a.md"), 10, Some(100_000)));
    assert!(!open.should_discover_file("a.txt", Some("a.txt"), 10, Some(1)));
}

#[test]
fn test_file_info_creation() {
    let file_info = describe_file("/tmp/x/test.txt", Some("test.txt"), Some("txt"), 12, 500, Some(400), false);

    assert_eq!(file_info.filename, "test.txt");
    assert_eq!(file_info.extension, Some("txt".to_string()));
    assert_eq!(file_info.size_bytes, 12);
    assert_eq!(file_info.mime_type, Some("text/plain".to_string()));
    assert!(!file_info.is_hidden);
    assert!(!file_info.is_symlink);
    assert_eq!(file_info.path, "/tmp/x/test.txt");
    assert_eq!(file_info.modified_time, 500);
    assert_eq!(file_info.created_time, 400);
}

#[test]
fn what_is_not_known_of_a_file_is_filled_in() {
    let info = describe_file("/x/.Photo.JPG", Some(".Photo.JPG"), Some("JPG"), 7, 500, None, true);
    assert_eq!(
        info,
        FileInfo {
            path: "/x/.Photo.JPG".to_string(),
            filename: ".Photo.JPG".to_string(),
            extension: Some("jpg".to_string()),
            size_bytes: 7,
            modified_time: 500,
            created_time: 500,
            is_hidden: true,
            is_symlink: true,
            mime_type: Some("image/jpeg".to_string()),
        }
    );

    let bare = describe_file("/", None, None, 0, 1, None, false);
    assert_eq!(bare.filename, "unknown");
    assert_eq!(bare.extension, None);
    assert_eq!(bare.mime_type, None);
    assert!(!bare.is_hidden);
}

#[test]
fn every_extension_has_its_media_type() {
    let expected = [
        ("txt", "text/plain"),
        ("md", "text/markdown"),
        ("html", "text/html"),
        ("htm", "text/html"),
        ("pdf", "application/pdf"),
        ("doc", "application/vnd.openxmlformats-officedocument.wordprocessingml.document"),
        ("docx", "application/vnd.openxmlformats-officedocument.wordprocessingml.document"),
        ("xls", "application/vnd.openxmlformats-officedocument.spreadsheetml.sheet"),
        ("xlsx", "application/vnd.openxmlformats-officedocument.spreadsheetml.sheet"),
        ("ppt", "application/vnd.openxmlformats-officedocument.presentationml.presentation"),
        ("pptx", "application/vnd.openxmlformats-officedocument.presentationml.presentation"),
        ("jpg", "image/jpeg"),
        ("jpeg", "image/jpeg"),
        ("png", "image/png"),
        ("gif", "image/gif"),
        ("mp3", "audio/mpeg"),
        ("wav", "audio/wav"),
        ("mp4", "video/mp4"),
        ("avi", "video/x-msvideo"),
        ("xyz", "application/octet-stream"),
        ("", "application/octet-stream"),
        ("TXT", "application/octet-stream"),
    ];
    for (extension, media_type) in expected {
        assert_eq!(mime_type_for_extension(extension), media_type, "{extension}");
    }
}

#[test]
fn sizes_fall_into_ranges() {
    assert_eq!(size_range(0), "0-1KB");
    assert_eq!(size_range(1024), "0-1KB");
    assert_eq!(size_range(1025), "1-10KB");
    assert_eq!(size_range(10 * 1024), "1-10KB");
    assert_eq!(size_range(10 * 1024 + 1), "10-100KB");
    assert_eq!(size_range(100 * 1024), "10-100KB");
    assert_eq!(size_range(100 * 1024 + 1), "100KB-1MB");
    assert_eq!(size_range(1024 * 1024), "100KB-1MB");
    assert_eq!(size_range(1024 * 1024 + 1), "1-10MB");
    assert_eq!(size_range(10 * 1024 * 1024), "1-10MB");
    assert_eq!(size_range(10 * 1024 * 1024 + 1), "10-100MB");
    assert_eq!(size_range(100 * 1024 * 1024), "10-100MB");
    assert_eq!(size_range(100 * 1024 * 1024 + 1), "100MB+");
    assert_eq!(size_range(u64::MAX), "100MB+");
}

#[test]
fn test_statistics_update() {
    let mut discovery = FileDiscoveryService::new(create_test_config());
    let files = vec![file("/d/test1.txt", 14, 100), file("/d/test2.md", 15, 100)];

    discovery.note_scan();
    discovery.update_stats(&files, 1_000);

    let stats = discovery.stats();
    assert_eq!(stats.total_files_discovered, 2);
    assert_eq!(stats.total_directories_scanned, 1);
    assert!(stats.last_scan_time.is_some());
    assert_eq!(stats.files_by_extension.get("txt"), 1);
    assert_eq!(stats.files_by_extension.get("md"), 1);
    assert_eq!(stats.files_by_size_range.get("0-1KB"), 2);
}

#[test]
fn the_figures_of_the_service_add_up_over_scans() {
    let mut discovery = FileDiscoveryService::new(create_test_config());
    assert_eq!(*discovery.stats(), FileDiscoveryStats::default());

    discovery.update_stats(&vec![file("/d/a.txt", 10, 1), file("/d/b", 2_000, 1)], 50);
    discovery.update_stats(&vec![file("/d/c.TXT", 3_000, 1)], 60);
    discovery.note_error();
    discovery.note_scan();
    discovery.note_scan();

    let stats = discovery.stats();
    assert_eq!(stats.total_files_discovered, 3);
    assert_eq!(stats.total_directories_scanned, 2);
    assert_eq!(stats.error_count, 1);
    assert_eq!(stats.last_scan_time, Some(60));
    assert_eq!(stats.files_by_extension.len(), 1);
    assert_eq!(stats.files_by_extension.get("txt"), 2);
    assert_eq!(stats.files_by_size_range.get("0-1KB"), 1);
    assert_eq!(stats.files_by_size_range.get("1-10KB"), 2);
    // Counting does not record the files.
    assert_eq!(discovery.discovered_files().len(), 0);
}

#[test]
fn found_files_are_kept_by_their_paths() {
    let hour: i64 = 3_600_000;
    let now: i64 = 100 * hour;
    let mut discovery = FileDiscoveryService::new(create_test_config());
    discovery.record(&vec![
        file("/d/a.txt", 10, now - 30 * hour),
        file("/d/b.md", 2_000, now - hour),
        file("/d/c.txt", 500_000, now - 2 * hour),
    ]);
    discovery.record(&vec![file("/d/a.txt", 20, now - 10)]);

    let paths = |files: Vec<&FileInfo>| -> Vec<String> {
        files.iter().map(|f| f.path.clone()).collect()
    };
    assert_eq!(
        paths(discovery.discovered_files().iter().collect()),
        texts(&["/d/a.txt", "/d/b.md", "/d/c.txt"])
    );
    assert_eq!(discovery.discovered_files()[0].size_bytes, 20);

    assert_eq!(paths(discovery.get_files_by_extension("txt")), texts(&["/d/a.txt", "/d/c.txt"]));
    assert_eq!(paths(discovery.get_files_by_extension("md")), texts(&["/d/b.md"]));
    assert!(discovery.get_files_by_extension("pdf").is_empty());

    assert_eq!(paths(discovery.get_files_by_size_range(20, 2_000)), texts(&["/d/a.txt", "/d/b.md"]));
    assert_eq!(paths(discovery.get_files_by_size_range(21, 1_999)), Vec::<String>::new());

    assert_eq!(
        paths(discovery.get_recently_modified_files(2, now)),
        texts(&["/d/a.txt", "/d/b.md"])
    );
    assert_eq!(
        paths(discovery.get_recently_modified_files(3, now)),
        texts(&["/d/a.txt", "/d/b.md", "/d/c.txt"])
    );
    assert_eq!(paths(discovery.get_recently_modified_files(0, now)), Vec::<String>::new());
}

#[test]
fn the_service_runs_between_start_and_stop() {
    let mut discovery = FileDiscoveryService::new(create_test_config());
    assert!(!discovery.is_running());
    discovery.start();
    assert!(discovery.is_running());
    discovery.stop();
    assert!(!discovery.is_running());
    assert_eq!(discovery.config().min_file_size, 1);
}

#[test]
fn the_default_service_looks_for_visible_files_of_the_last_week() {
    let config = FileDiscoveryConfig::default();
    assert_eq!(config.watch_directories, texts(&["./test-data"]));
    assert_eq!(config.include_patterns, texts(&["*"]));
    assert_eq!(config.exclude_patterns, texts(&[".*", "*.tmp", "*.log"]));
    assert_eq!(config.max_file_size, 100 * 1024 * 1024);
    assert_eq!(config.min_file_size, 1);
    assert_eq!(config.scan_interval_ms, 1000);
    assert!(config.recursive_scan);
    assert!(!config.enable_fs_watching);
    assert_eq!(config.max_file_age_hours, Some(24 * 7));
}

#[test]
fn file_discovery_test_directory_scanning() {
    let mut discovery = FileDiscoveryService::new(create_test_config());
    let files = [
        ("test1.txt", "Test content 1"),
        ("test2.md", "# Test Markdown"),
        (".hidden.txt", "Hidden content"),
        ("temp.tmp", "Temporary content"),
    ];

    let mut found = Vec::new();
    discovery.note_scan();
    for (name, content) in files {
        let path = format!("/watched/{}", name);
        let size = content.len() as u64;
        if discovery.should_discover_file(&path, Some(name), size, Some(0)) {
            found.push(file(&path, size, 100));
        }
    }
    discovery.record(&found);
    assert_eq!(found.len(), 2);

    let filenames: Vec<&String> = found.iter().map(|f| &f.filename).collect();
    assert!(filenames.contains(&&"test1.txt".to_string()));
    assert!(filenames.contains(&&"test2.md".to_string()));
    assert_eq!(discovery.discovered_files().len(), 2);
}
