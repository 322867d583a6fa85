use unzip::listing::{push_list_line, push_list_total, push_verbose_line, push_verbose_total};
use unzip::datetime::ArchiveDateTime;
use unzip::format::{format_unix_mode, write_right_aligned, write_u64};
use unzip::integrity::{check_entry, TestCounts};
use unzip::zipinfo::{
    compression_ratio, format_datetime, format_flags, format_method, format_permissions,
    print_long_format, print_medium_format, print_short_format, print_verbose_format, totals,
    CompressionKind, DateTimeCache, EntryInfo, ZipinfoMode,
};

fn sample() -> EntryInfo {
    EntryInfo {
        name: "perms.2660".to_string(),
        is_dir: false,
        size: 2802,
        compressed_size: 538,
        crc32: 0x0badf00d,
        mtime: Some(ArchiveDateTime { year: 1991, month: 8, day: 11, hour: 13, minute: 48, second: 0 }),
        unix_mode: Some(0o2660),
        encrypted: false,
        method: CompressionKind::Deflated,
    }
}

#[test]
fn numbers_into_a_buffer() {
    let mut buf = [b'#'; 32];
    let n = write_u64(&mut buf, 0);
    assert_eq!(&buf[..n], b"0");
    let n = write_u64(&mut buf, 1234567);
    assert_eq!(&buf[..n], b"1234567");
    assert_eq!(buf[n], b'#');
    let n = write_u64(&mut buf, u64::MAX);
    assert_eq!(&buf[..n], b"18446744073709551615");
}

#[test]
fn right_alignment() {
    let mut out = String::new();
    write_right_aligned(&mut out, "42", 7);
    assert_eq!(out, "     42");
    write_right_aligned(&mut out, "12345678", 7);
    assert_eq!(out, "     4212345678");
}

#[test]
fn unix_permission_text() {
    assert_eq!(format_unix_mode(0o100644), "-rw-r--r--");
    assert_eq!(format_unix_mode(0o040755), "drwxr-xr-x");
    assert_eq!(format_unix_mode(0o2660), "-rw-rw----");
    assert_eq!(format_unix_mode(0), "----------");
}

#[test]
fn zipinfo_modes() {
    assert_eq!(ZipinfoMode::from_str("-1"), Some(ZipinfoMode::FilenamesOnly));
    assert_eq!(ZipinfoMode::from_str("2"), Some(ZipinfoMode::FilenamesWithHeaders));
    assert_eq!(ZipinfoMode::from_str("-s"), Some(ZipinfoMode::Short));
    assert_eq!(ZipinfoMode::from_str("m"), Some(ZipinfoMode::Medium));
    assert_eq!(ZipinfoMode::from_str("-l"), Some(ZipinfoMode::Long));
    assert_eq!(ZipinfoMode::from_str("v"), Some(ZipinfoMode::Verbose));
    assert_eq!(ZipinfoMode::from_str("-x"), None);
    assert_eq!(ZipinfoMode::from_str("--l"), None);
    assert_eq!(ZipinfoMode::from_str(""), None);
}

#[test]
fn ratios_and_flags() {
    assert_eq!(compression_ratio(0, 10), 0);
    assert_eq!(compression_ratio(2802, 538), 81);
    assert_eq!(compression_ratio(100, 100), 0);
    assert_eq!(compression_ratio(100, 250), 0);
    // 49.99...% kept is 49 after truncation, so 51% saved
    assert_eq!(compression_ratio(u64::MAX, u64::MAX / 2), 51);
    assert_eq!(format_flags(true), ('B', '-'));
    assert_eq!(format_flags(false), ('b', '-'));
}

#[test]
fn timestamps_as_text() {
    let dt = ArchiveDateTime { year: 1991, month: 8, day: 11, hour: 13, minute: 48, second: 5 };
    assert_eq!(format_datetime(Some(dt)), "1991-08-11 13:48:05");
    assert_eq!(format_datetime(None), "                   ");
    let mut cache = DateTimeCache::new();
    assert_eq!(cache.as_str(Some(dt)), "1991-08-11 13:48:05");
    assert_eq!(cache.as_str(Some(dt)), "1991-08-11 13:48:05");
    let later = ArchiveDateTime { year: 2107, ..dt };
    assert_eq!(cache.as_str(Some(later)), "2107-08-11 13:48:05");
    assert_eq!(cache.as_str(None), "                   ");
}

#[test]
fn checksums_are_counted() {
    let mut counts = TestCounts::new();
    // CRC-32 of "123456789" is cbf43926
    assert!(check_entry(&mut counts, b"123456789", 0xcbf43926));
    assert!(!check_entry(&mut counts, b"123456789", 0));
    assert!(check_entry(&mut counts, b"", 0));
    counts.record_read_error();
    assert_eq!(counts, TestCounts { tested: 4, errors: 2 });
    assert!(!counts.passed());
    assert!(TestCounts::new().passed());
}

#[test]
fn zipinfo_lines() {
    let info = sample();
    let mut cache = DateTimeCache::new();
    let mut out = String::new();
    print_short_format(&mut out, &info, &mut cache);
    assert_eq!(out, "-rw-rw----  2.0 unx     2802 b- defN 1991-08-11 13:48:00 perms.2660\n");
    out.clear();
    print_medium_format(&mut out, &info, &mut cache);
    assert_eq!(out, "-rw-rw----  2.0 unx     2802 b- 81% defN 1991-08-11 13:48:00 perms.2660\n");
    out.clear();
    print_long_format(&mut out, &info, &mut cache);
    assert_eq!(out, "-rw-rw----  2.0 unx     2802 b-     538 defN 1991-08-11 13:48:00 perms.2660\n");
    out.clear();
    let locked = EntryInfo { encrypted: true, unix_mode: None, ..info };
    print_verbose_format(&mut out, &locked, &mut cache);
    assert_eq!(
        out,
        "File: perms.2660\n  Compressed size:   538\n  Uncompressed size: 2802\n  Compression ratio: 81%\n  Compression method: defN\n  CRC-32:            0badf00d\n  Modified:          1991-08-11 13:48:00\n  OS:                unx\n  Version made by:   2.0\n  Encrypted:         Yes\n\n"
    );
}

#[test]
fn permission_defaults_and_methods() {
    let file = EntryInfo { unix_mode: None, ..sample() };
    assert_eq!(format_permissions(&file), "-rw-r--r--");
    let dir = EntryInfo { is_dir: true, unix_mode: None, ..sample() };
    assert_eq!(format_permissions(&dir), "drwxr-xr-x");
    assert_eq!(format_method(CompressionKind::Stored), "stor");
    assert_eq!(format_method(CompressionKind::Bzip2), "bzp2");
    assert_eq!(format_method(CompressionKind::Zstd), "zstd");
    assert_eq!(format_method(CompressionKind::Other), "unkn");
}

#[test]
fn listing_totals() {
    let a = sample();
    let b = EntryInfo { size: 10, compressed_size: 2, ..sample() };
    assert_eq!(totals(&vec![a.clone(), b]), (2812, 540));
    assert_eq!(totals(&vec![]), (0, 0));
    let big = EntryInfo { size: u64::MAX, compressed_size: 1, ..sample() };
    assert_eq!(totals(&vec![big, a]), (u64::MAX, 539));
}

#[test]
fn content_listing_lines() {
    let dt = ArchiveDateTime { year: 2024, month: 1, day: 2, hour: 3, minute: 4, second: 5 };
    let mut out = String::new();
    push_list_line(&mut out, 1536, Some(dt), "a/b.txt");
    assert_eq!(out, "      1.5K  2024-01-02 03:04:05  a/b.txt\n");
    out.clear();
    push_verbose_line(&mut out, 2802, 538, Some(dt), 0xcbf43926, "x");
    assert_eq!(out, "    2802       538    81%  2024-01-02 03:04:05  cbf43926  x\n");
    out.clear();
    push_list_total(&mut out, 500, 3);
    assert_eq!(out, "      500B                       3 files\n");
    out.clear();
    push_verbose_total(&mut out, 100, 25, 2);
    assert_eq!(out, "     100        25    75%                                 2 files\n");
}
