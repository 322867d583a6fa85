use unzip::{format_size, should_extract, EntryFilter};

#[test]
fn test_format_size_bytes() {
    assert_eq!(format_size(0), "0B");
    assert_eq!(format_size(1), "1B");
    assert_eq!(format_size(500), "500B");
    assert_eq!(format_size(1023), "1023B");
}

#[test]
fn test_format_size_kilobytes() {
    assert_eq!(format_size(1024), "1.0K");
    assert_eq!(format_size(1536), "1.5K");
    assert_eq!(format_size(2048), "2.0K");
    assert_eq!(format_size(1024 * 1023), "1023.0K");
}

#[test]
fn test_format_size_megabytes() {
    assert_eq!(format_size(1024 * 1024), "1.0M");
    assert_eq!(format_size(1024 * 1024 * 2), "2.0M");
    assert_eq!(format_size(1024 * 1024 + 512 * 1024), "1.5M");
}

#[test]
fn test_format_size_gigabytes() {
    assert_eq!(format_size(1024 * 1024 * 1024), "1.0G");
    assert_eq!(format_size(1024 * 1024 * 1024 * 2), "2.0G");
}

#[test]
fn format_size_rounds_to_the_nearest_tenth() {
    // 1100 / 1024 = 1.074..., 1126 / 1024 = 1.0996...
    assert_eq!(format_size(1100), "1.1K");
    assert_eq!(format_size(1126), "1.1K");
    // just under 1 MiB reads as 1024.0K
    assert_eq!(format_size(1024 * 1024 - 1), "1024.0K");
    // 1.25K is a tie, which goes to the even tenth
    assert_eq!(format_size(1280), "1.2K");
    assert_eq!(format_size(1024 * 1024 * 1024 * 1024), "1024.0G");
}

#[test]
fn test_should_extract_no_patterns() {
    assert!(should_extract("file.txt", &[], &[], false));
    assert!(should_extract("any/path/file.rs", &[], &[], false));
}

#[test]
fn test_should_extract_with_patterns() {
    let patterns = vec!["*.txt".to_string()];
    assert!(should_extract("file.txt", &patterns, &[], false));
    assert!(!should_extract("file.rs", &patterns, &[], false));
}

#[test]
fn test_should_extract_with_exclude() {
    let exclude = vec!["*.log".to_string()];
    assert!(should_extract("file.txt", &[], &exclude, false));
    assert!(!should_extract("debug.log", &[], &exclude, false));
}

#[test]
fn test_should_extract_case_insensitive() {
    let patterns = vec!["*.TXT".to_string()];
    assert!(!should_extract("file.txt", &patterns, &[], false));
    assert!(should_extract("file.txt", &patterns, &[], true));
    assert!(should_extract("FILE.TXT", &patterns, &[], true));
}

#[test]
fn test_should_extract_exclude_takes_priority() {
    let patterns = vec!["*.txt".to_string()];
    let exclude = vec!["secret.txt".to_string()];
    assert!(should_extract("file.txt", &patterns, &exclude, false));
    assert!(!should_extract("secret.txt", &patterns, &exclude, false));
}

#[test]
fn exclude_wins_over_a_matching_selection() {
    let patterns = vec!["**".to_string(), "*.log".to_string()];
    let exclude = vec!["*.log".to_string()];
    assert!(!should_extract("debug.log", &patterns, &exclude, false));
    assert!(!should_extract("DEBUG.LOG", &patterns, &exclude, true));
    assert!(should_extract("DEBUG.LOG", &patterns, &exclude, false));
}

#[test]
fn several_selection_patterns() {
    let patterns = vec!["*.txt".to_string(), "*.rs".to_string()];
    assert!(should_extract("file.txt", &patterns, &[], false));
    assert!(should_extract("file.rs", &patterns, &[], false));
    assert!(!should_extract("file.md", &patterns, &[], false));
    assert!(!should_extract("file.json", &patterns, &[], false));
}

#[test]
fn entry_filter_folds_patterns_once() {
    let patterns = vec!["SRC/**".to_string()];
    let exclude = vec!["*/TARGET/*".to_string()];
    let filter = EntryFilter::new(&patterns, &exclude, true);
    assert!(filter.should_extract("src/main.rs"));
    assert!(filter.should_extract("Src/Lib/Mod.rs"));
    assert!(!filter.should_extract("src/target/x.o"));
    assert!(!filter.should_extract("doc/readme.txt"));
    let plain = EntryFilter::new(&[], &[], false);
    assert!(plain.should_extract("anything/at/all"));
}
