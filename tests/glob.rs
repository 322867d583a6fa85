use unzip::glob_match;
use unzip::glob::glob_match_impl;

#[test]
fn test_glob_match_simple_wildcard() {
    assert!(glob_match("*.txt", "file.txt"));
    assert!(glob_match("*.txt", "document.txt"));
    assert!(!glob_match("*.txt", "file.rs"));
    assert!(!glob_match("*.txt", "file.txt.bak"));
}

#[test]
fn test_glob_match_prefix_wildcard() {
    assert!(glob_match("file.*", "file.txt"));
    assert!(glob_match("file.*", "file.rs"));
    assert!(!glob_match("file.*", "myfile.txt"));
}

#[test]
fn test_glob_match_middle_wildcard() {
    assert!(glob_match("file*.txt", "file.txt"));
    assert!(glob_match("file*.txt", "file123.txt"));
    assert!(glob_match("file*.txt", "file_name.txt"));
    assert!(!glob_match("file*.txt", "myfile.txt"));
}

#[test]
fn test_glob_match_question_mark() {
    assert!(glob_match("file?.txt", "file1.txt"));
    assert!(glob_match("file?.txt", "filea.txt"));
    assert!(!glob_match("file?.txt", "file12.txt"));
    assert!(!glob_match("file?.txt", "file.txt"));
}

#[test]
fn test_glob_match_double_star() {
    assert!(glob_match("**/*.rs", "src/main.rs"));
    assert!(glob_match("**/*.rs", "src/lib/mod.rs"));
    assert!(glob_match("**/*.rs", "main.rs"));
    assert!(!glob_match("**/*.rs", "src/main.txt"));
}

#[test]
fn test_glob_match_single_star_no_slash() {
    assert!(glob_match("src/*", "src/main.rs"));
    assert!(!glob_match("src/*", "src/lib/mod.rs"));
}

#[test]
fn test_glob_match_directory_pattern() {
    assert!(glob_match("src/**", "src/main.rs"));
    assert!(glob_match("src/**", "src/lib/mod.rs"));
    assert!(glob_match("src/**", "src/a/b/c/d.rs"));
    assert!(!glob_match("src/**", "test/main.rs"));
}

#[test]
fn test_glob_match_exact() {
    assert!(glob_match("file.txt", "file.txt"));
    assert!(!glob_match("file.txt", "file.rs"));
    assert!(!glob_match("file.txt", "other.txt"));
}

#[test]
fn test_glob_match_empty_pattern() {
    assert!(glob_match("", ""));
    assert!(!glob_match("", "file.txt"));
}

#[test]
fn test_glob_match_only_wildcard() {
    assert!(glob_match("*", "file.txt"));
    assert!(glob_match("*", "anything"));
    assert!(!glob_match("*", "path/file.txt"));
}

#[test]
fn test_glob_match_double_star_only() {
    assert!(glob_match("**", "file.txt"));
    assert!(glob_match("**", "path/file.txt"));
    assert!(glob_match("**", "a/b/c/d/e.txt"));
}

#[test]
fn glob_examples_of_the_matching_rules() {
    assert!(glob_match("*.txt", "file.txt"));
    assert!(!glob_match("*.txt", "file.rs"));
    assert!(glob_match("**/*.rs", "src/main.rs"));
    assert!(!glob_match("src/*", "src/lib/mod.rs"));
    assert!(glob_match("file?.dat", "file1.dat"));
    assert!(!glob_match("file?.dat", "file12.dat"));
}

#[test]
fn glob_question_mark_never_matches_slash() {
    assert!(!glob_match("a?b", "a/b"));
    assert!(glob_match("a?b", "a.b"));
    assert!(glob_match("?", "x"));
    assert!(!glob_match("?", ""));
}

#[test]
fn glob_double_star_spans_segments_and_empty() {
    assert!(glob_match("a/**/z", "a/z"));
    assert!(glob_match("a/**/z", "a/b/c/z"));
    assert!(glob_match("a**z", "a/b/z"));
    assert!(!glob_match("a*z", "a/b/z"));
    assert!(glob_match("**", ""));
    assert!(glob_match("*", ""));
}

#[test]
fn glob_backtracking_over_several_stars() {
    assert!(glob_match("*a*b*c", "xxaxxbxxc"));
    assert!(!glob_match("*a*b*c", "xxaxxcxxb"));
    assert!(glob_match("*.tar.*", "archive.tar.gz"));
    assert!(!glob_match("*.tar.*", "dir/archive.tar.gz"));
}

#[test]
fn glob_on_bytes() {
    assert!(glob_match_impl(b"*.bin", b"data.bin"));
    assert!(!glob_match_impl(b"*.bin", b"data/x.bin"));
    assert!(glob_match_impl(b"", b""));
}
