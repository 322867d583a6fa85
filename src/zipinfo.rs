//! Pieces of the detailed listing: its modes, compression ratios, flags and
//! timestamps.

use vstd::prelude::*;
use vstd::string::StringExecFns;
use crate::datetime::ArchiveDateTime;
use crate::format::{
    decimal, digit_char, format_unix_mode, hex_digits, mode_text, pad_left, push_hex, push_number_right,
};

verus! {

/// The layouts of the detailed listing.
#[derive(Clone, Copy, Debug, PartialEq, Eq, Structural)]
pub enum ZipinfoMode {
    /// Names only, one per line, without header or trailer.
    FilenamesOnly,
    /// Names only, with header and trailer.
    FilenamesWithHeaders,
    /// One `ls -l` style line per entry.
    Short,
    /// The short line with the compression ratio.
    Medium,
    /// The short line with the compressed size.
    Long,
    /// Several lines per entry.
    Verbose,
}

/// The mode that an option names, with or without its dash.
pub open spec fn mode_of(s: Seq<char>) -> Option<ZipinfoMode> {
    if s == seq!['-', '1'] || s == seq!['1'] {
        Some(ZipinfoMode::FilenamesOnly)
    } else if s == seq!['-', '2'] || s == seq!['2'] {
        Some(ZipinfoMode::FilenamesWithHeaders)
    } else if s == seq!['-', 's'] || s == seq!['s'] {
        Some(ZipinfoMode::Short)
    } else if s == seq!['-', 'm'] || s == seq!['m'] {
        Some(ZipinfoMode::Medium)
    } else if s == seq!['-', 'l'] || s == seq!['l'] {
        Some(ZipinfoMode::Long)
    } else if s == seq!['-', 'v'] || s == seq!['v'] {
        Some(ZipinfoMode::Verbose)
    } else {
        None
    }
}

/// Whether `s` is the option letter `c`, with or without its dash.
fn is_option(s: &str, c: char) -> (r: bool)
    ensures
        r == (s@ == seq!['-', c] || s@ == seq![c]),
{
    let n = s.unicode_len();
    if n == 1 {
        let r = s.get_char(0) == c;
        proof {
            if r {
                assert(s@ =~= seq![c]);
            }
        }
        r
    } else if n == 2 {
        let r = s.get_char(0) == '-' && s.get_char(1) == c;
        proof {
            if r {
                assert(s@ =~= seq!['-', c]);
            }
            if s@ == seq!['-', c] {
                assert(s@[0] == '-' && s@[1] == c);
            }
        }
        r
    } else {
        false
    }
}

impl ZipinfoMode {
    /// The mode that an option names (`-1`, `2`, `-s`, `m`, `l`, `v`, ...).
    pub fn from_str(s: &str) -> (r: Option<Self>)
        ensures
            r == mode_of(s@),
    {
        if is_option(s, '1') {
            Some(ZipinfoMode::FilenamesOnly)
        } else if is_option(s, '2') {
            Some(ZipinfoMode::FilenamesWithHeaders)
        } else if is_option(s, 's') {
            Some(ZipinfoMode::Short)
        } else if is_option(s, 'm') {
            Some(ZipinfoMode::Medium)
        } else if is_option(s, 'l') {
            Some(ZipinfoMode::Long)
        } else if is_option(s, 'v') {
            Some(ZipinfoMode::Verbose)
        } else {
            None
        }
    }
}

/// The space saved by compression, in whole percent: 0 for an empty entry
/// or one that grew.
pub open spec fn ratio_spec(size: u64, compressed: u64) -> u64 {
    if size == 0 {
        0
    } else {
        let r = (compressed as nat * 100) / size as nat;
        if r > 100 {
            0
        } else {
            (100 - r) as u64
        }
    }
}

/// The space saved by compression, in whole percent.
pub fn compression_ratio(size: u64, compressed: u64) -> (r: u64)
    ensures
        r == ratio_spec(size, compressed),
        r <= 100,
{
    if size == 0 {
        return 0;
    }
    let r: u128 = (compressed as u128 * 100) / size as u128;
    if r > 100 {
        0
    } else {
        (100 - r) as u64
    }
}

/// The two flag characters of a listing line: `b` for binary (upper case
/// when encrypted), then `-` as no extended header is read.
pub fn format_flags(encrypted: bool) -> (r: (char, char))
    ensures
        r == (if encrypted {
            ('B', '-')
        } else {
            ('b', '-')
        }),
{
    if encrypted {
        ('B', '-')
    } else {
        ('b', '-')
    }
}

/// Two decimal digits of `n` (its last two).
pub open spec fn two_digits(n: int) -> Seq<char> {
    seq![digit_char((n / 10) % 10), digit_char(n % 10)]
}

/// A timestamp as `YYYY-MM-DD HH:MM:SS` (the year's last four digits), or
/// nineteen spaces when there is none.
pub open spec fn datetime_text(dt: Option<ArchiveDateTime>) -> Seq<char> {
    match dt {
        Some(d) => two_digits(d.year as int / 100) + two_digits(d.year as int) + seq!['-'] + two_digits(
            d.month as int,
        ) + seq!['-'] + two_digits(d.day as int) + seq![' '] + two_digits(d.hour as int) + seq![
            ':',
        ] + two_digits(d.minute as int) + seq![':'] + two_digits(d.second as int),
        None => Seq::new(19, |i: int| ' '),
    }
}

/// Appends the last two decimal digits of `n`.
fn push_two(s: &mut String, n: u16)
    ensures
        final(s)@ == old(s)@ + two_digits(n as int),
{
    crate::format::push_digit(s, ((n / 10) % 10) as u8);
    crate::format::push_digit(s, (n % 10) as u8);
    assert(final(s)@ =~= old(s)@ + two_digits(n as int));
}

/// Formats a timestamp.
pub fn format_datetime(dt: Option<ArchiveDateTime>) -> (r: String)
    ensures
        r@ == datetime_text(dt),
{
    match dt {
        Some(d) => {
            let mut s = String::new();
            proof {
                reveal_strlit("-");
                reveal_strlit(" ");
                reveal_strlit(":");
            }
            push_two(&mut s, d.year / 100);
            push_two(&mut s, d.year);
            s.append("-");
            push_two(&mut s, d.month as u16);
            s.append("-");
            push_two(&mut s, d.day as u16);
            s.append(" ");
            push_two(&mut s, d.hour as u16);
            s.append(":");
            push_two(&mut s, d.minute as u16);
            s.append(":");
            push_two(&mut s, d.second as u16);
            assert(s@ =~= datetime_text(dt));
            s
        },
        None => {
            proof {
                reveal_strlit("                   ");
            }
            let s = String::from_str("                   ");
            assert(s@ =~= datetime_text(dt));
            s
        },
    }
}

/// The text of the last timestamp formatted, kept for the next entry, which
/// often has the same one.
pub struct DateTimeCache {
    last: Option<ArchiveDateTime>,
    text: String,
}

impl DateTimeCache {
    /// The cache holds the text of its last timestamp.
    pub closed spec fn wf(&self) -> bool {
        self.text@ == datetime_text(self.last)
    }

    /// An empty cache.
    pub fn new() -> (c: Self)
        ensures
            c.wf(),
    {
        DateTimeCache { last: None, text: format_datetime(None) }
    }

    /// The text of `datetime`, formatted only when it differs from the last
    /// one.
    pub fn as_str(&mut self, datetime: Option<ArchiveDateTime>) -> (r: String)
        requires
            old(self).wf(),
        ensures
            final(self).wf(),
            r@ == datetime_text(datetime),
    {
        if self.last != datetime {
            self.text = format_datetime(datetime);
            self.last = datetime;
        }
        self.text.clone()
    }
}

/// How an entry's data is compressed.
#[derive(Clone, Copy, Debug, PartialEq, Eq, Structural)]
pub enum CompressionKind {
    Stored,
    Deflated,
    Bzip2,
    Zstd,
    Other,
}

/// What the detailed listing shows of one entry.
#[derive(Clone, Debug)]
pub struct EntryInfo {
    pub name: String,
    pub is_dir: bool,
    pub size: u64,
    pub compressed_size: u64,
    pub crc32: u32,
    pub mtime: Option<ArchiveDateTime>,
    pub unix_mode: Option<u32>,
    pub encrypted: bool,
    pub method: CompressionKind,
}

/// The four-letter name of a compression method.
pub open spec fn method_text(k: CompressionKind) -> Seq<char> {
    match k {
        CompressionKind::Stored => "stor"@,
        CompressionKind::Deflated => "defN"@,
        CompressionKind::Bzip2 => "bzp2"@,
        CompressionKind::Zstd => "zstd"@,
        CompressionKind::Other => "unkn"@,
    }
}

/// Names a compression method.
pub fn format_method(k: CompressionKind) -> (r: &'static str)
    ensures
        r@ == method_text(k),
{
    match k {
        CompressionKind::Stored => "stor",
        CompressionKind::Deflated => "defN",
        CompressionKind::Bzip2 => "bzp2",
        CompressionKind::Zstd => "zstd",
        CompressionKind::Other => "unkn",
    }
}

/// The permission column: the stored Unix bits, or a default for a
/// directory or a file.
pub open spec fn perms_text(info: EntryInfo) -> Seq<char> {
    match info.unix_mode {
        Some(mode) => mode_text(mode),
        None => if info.is_dir {
            "drwxr-xr-x"@
        } else {
            "-rw-r--r--"@
        },
    }
}

/// Formats the permission column.
pub fn format_permissions(info: &EntryInfo) -> (r: String)
    ensures
        r@ == perms_text(*info),
{
    match info.unix_mode {
        Some(mode) => format_unix_mode(mode),
        None => if info.is_dir {
            String::from_str("drwxr-xr-x")
        } else {
            String::from_str("-rw-r--r--")
        },
    }
}

/// The flag column: `b` (upper case when encrypted), then `-`.
pub open spec fn flags_text(encrypted: bool) -> Seq<char> {
    if encrypted {
        "B-"@
    } else {
        "b-"@
    }
}

/// The columns that every `ls -l` style line starts with, up to the flags
/// and the space after them.
pub open spec fn line_head(info: EntryInfo) -> Seq<char> {
    perms_text(info) + "  "@ + "2.0"@ + " "@ + "unx"@ + "  "@ + pad_left(decimal(info.size as nat), 7)
        + " "@ + flags_text(info.encrypted) + " "@
}

/// The columns that every `ls -l` style line ends with, from the method on.
pub open spec fn line_tail(info: EntryInfo) -> Seq<char> {
    method_text(info.method) + " "@ + datetime_text(info.mtime) + " "@ + info.name@ + "\n"@
}

/// Appends the head of a line.
fn push_line_head(out: &mut String, info: &EntryInfo)
    ensures
        final(out)@ == old(out)@ + line_head(*info),
{
    let perms = format_permissions(info);
    out.append(perms.as_str());
    out.append("  ");
    out.append("2.0");
    out.append(" ");
    out.append("unx");
    out.append("  ");
    push_number_right(out, info.size, 7);
    out.append(" ");
    if info.encrypted {
        out.append("B-");
    } else {
        out.append("b-");
    }
    out.append(" ");
    assert(final(out)@ =~= old(out)@ + line_head(*info));
}

/// Appends the tail of a line.
fn push_line_tail(out: &mut String, info: &EntryInfo, cache: &mut DateTimeCache)
    requires
        old(cache).wf(),
    ensures
        final(cache).wf(),
        final(out)@ == old(out)@ + line_tail(*info),
{
    out.append(format_method(info.method));
    out.append(" ");
    let dt = cache.as_str(info.mtime);
    out.append(dt.as_str());
    out.append(" ");
    out.append(info.name.as_str());
    out.append("\n");
    assert(final(out)@ =~= old(out)@ + line_tail(*info));
}

/// Appends the short line of an entry: permissions, version, system, size,
/// flags, method, time and name.
pub fn print_short_format(out: &mut String, info: &EntryInfo, cache: &mut DateTimeCache)
    requires
        old(cache).wf(),
    ensures
        final(cache).wf(),
        final(out)@ == old(out)@ + line_head(*info) + line_tail(*info),
{
    push_line_head(out, info);
    push_line_tail(out, info, cache);
}

/// Appends the medium line of an entry: the short line with the
/// compression ratio before the method.
pub fn print_medium_format(out: &mut String, info: &EntryInfo, cache: &mut DateTimeCache)
    requires
        old(cache).wf(),
    ensures
        final(cache).wf(),
        final(out)@ == old(out)@ + line_head(*info) + pad_left(
            decimal(ratio_spec(info.size, info.compressed_size) as nat),
            2,
        ) + "% "@ + line_tail(*info),
{
    push_line_head(out, info);
    let ratio = compression_ratio(info.size, info.compressed_size);
    push_number_right(out, ratio, 2);
    out.append("% ");
    push_line_tail(out, info, cache);
    assert(final(out)@ =~= old(out)@ + line_head(*info) + pad_left(
        decimal(ratio_spec(info.size, info.compressed_size) as nat),
        2,
    ) + "% "@ + line_tail(*info));
}

/// Appends the long line of an entry: the short line with the compressed
/// size before the method.
pub fn print_long_format(out: &mut String, info: &EntryInfo, cache: &mut DateTimeCache)
    requires
        old(cache).wf(),
    ensures
        final(cache).wf(),
        final(out)@ == old(out)@ + line_head(*info) + pad_left(
            decimal(info.compressed_size as nat),
            7,
        ) + " "@ + line_tail(*info),
{
    push_line_head(out, info);
    push_number_right(out, info.compressed_size, 7);
    out.append(" ");
    push_line_tail(out, info, cache);
    assert(final(out)@ =~= old(out)@ + line_head(*info) + pad_left(
        decimal(info.compressed_size as nat),
        7,
    ) + " "@ + line_tail(*info));
}

/// The size lines of the verbose block.
pub open spec fn verbose_sizes(info: EntryInfo) -> Seq<char> {
    "  Compressed size:   "@ + decimal(info.compressed_size as nat) + "\n"@
        + "  Uncompressed size: "@ + decimal(info.size as nat) + "\n"@ + "  Compression ratio: "@
        + decimal(ratio_spec(info.size, info.compressed_size) as nat) + "%\n"@
}

/// The method, checksum and time lines of the verbose block.
pub open spec fn verbose_details(info: EntryInfo) -> Seq<char> {
    "  Compression method: "@ + method_text(info.method) + "\n"@ + "  CRC-32:            "@
        + hex_digits(info.crc32 as nat, 8) + "\n"@ + "  Modified:          "@ + datetime_text(
        info.mtime,
    ) + "\n"@
}

/// The closing lines of the verbose block.
pub open spec fn verbose_closing(info: EntryInfo) -> Seq<char> {
    "  OS:                "@ + "unx"@ + "\n"@ + "  Version made by:   "@ + "2.0"@ + "\n"@ + (
    if info.encrypted {
        "  Encrypted:         Yes\n"@
    } else {
        Seq::empty()
    }) + "\n"@
}

/// The block of lines that the verbose listing writes for an entry.
pub open spec fn verbose_text(info: EntryInfo) -> Seq<char> {
    "File: "@ + info.name@ + "\n"@ + verbose_sizes(info) + verbose_details(info) + verbose_closing(
        info,
    )
}

/// Appends the decimal text of `n`.
fn push_number(out: &mut String, n: u64)
    ensures
        final(out)@ == old(out)@ + decimal(n as nat),
{
    push_number_right(out, n, 0);
    assert(pad_left(decimal(n as nat), 0) =~= decimal(n as nat));
}

fn push_verbose_sizes(out: &mut String, info: &EntryInfo)
    ensures
        final(out)@ == old(out)@ + verbose_sizes(*info),
{
    out.append("  Compressed size:   ");
    push_number(out, info.compressed_size);
    out.append("\n");
    out.append("  Uncompressed size: ");
    push_number(out, info.size);
    out.append("\n");
    let ratio = compression_ratio(info.size, info.compressed_size);
    out.append("  Compression ratio: ");
    push_number(out, ratio);
    out.append("%\n");
    assert(final(out)@ =~= old(out)@ + verbose_sizes(*info));
}

fn push_verbose_details(out: &mut String, info: &EntryInfo, cache: &mut DateTimeCache)
    requires
        old(cache).wf(),
    ensures
        final(cache).wf(),
        final(out)@ == old(out)@ + verbose_details(*info),
{
    out.append("  Compression method: ");
    out.append(format_method(info.method));
    out.append("\n");
    out.append("  CRC-32:            ");
    push_hex(out, info.crc32, 8);
    out.append("\n");
    out.append("  Modified:          ");
    let dt = cache.as_str(info.mtime);
    out.append(dt.as_str());
    out.append("\n");
    assert(final(out)@ =~= old(out)@ + verbose_details(*info));
}

fn push_verbose_closing(out: &mut String, info: &EntryInfo)
    ensures
        final(out)@ == old(out)@ + verbose_closing(*info),
{
    out.append("  OS:                ");
    out.append("unx");
    out.append("\n");
    out.append("  Version made by:   ");
    out.append("2.0");
    out.append("\n");
    let ghost mid = out@;
    if info.encrypted {
        out.append("  Encrypted:         Yes\n");
    } else {
        assert(out@ =~= mid + Seq::<char>::empty());
    }
    out.append("\n");
    assert(final(out)@ =~= old(out)@ + verbose_closing(*info));
}

/// Appends the verbose block of an entry.
pub fn print_verbose_format(out: &mut String, info: &EntryInfo, cache: &mut DateTimeCache)
    requires
        old(cache).wf(),
    ensures
        final(cache).wf(),
        final(out)@ == old(out)@ + verbose_text(*info),
{
    out.append("File: ");
    out.append(info.name.as_str());
    out.append("\n");
    push_verbose_sizes(out, info);
    push_verbose_details(out, info, cache);
    push_verbose_closing(out, info);
    assert(final(out)@ =~= old(out)@ + verbose_text(*info));
}

/// The sizes of the entries, added up.
pub open spec fn sizes_sum(infos: Seq<EntryInfo>) -> nat
    decreases infos.len(),
{
    if infos.len() == 0 {
        0
    } else {
        sizes_sum(infos.drop_last()) + infos.last().size as nat
    }
}

/// The compressed sizes of the entries, added up.
pub open spec fn compressed_sum(infos: Seq<EntryInfo>) -> nat
    decreases infos.len(),
{
    if infos.len() == 0 {
        0
    } else {
        compressed_sum(infos.drop_last()) + infos.last().compressed_size as nat
    }
}

/// The total size and compressed size of the entries, each held to the
/// largest `u64`.
pub fn totals(infos: &Vec<EntryInfo>) -> (r: (u64, u64))
    ensures
        r.0 == crate::scheduler::cap(sizes_sum(infos@) as int),
        r.1 == crate::scheduler::cap(compressed_sum(infos@) as int),
{
    let mut size: u64 = 0;
    let mut compressed: u64 = 0;
    let mut k: usize = 0;
    while k < infos.len()
        invariant
            k <= infos@.len(),
            size == crate::scheduler::cap(sizes_sum(infos@.subrange(0, k as int)) as int),
            compressed == crate::scheduler::cap(compressed_sum(infos@.subrange(0, k as int)) as int),
        decreases infos@.len() - k,
    {
        proof {
            let p = infos@.subrange(0, k + 1);
            assert(p.drop_last() =~= infos@.subrange(0, k as int));
        }
        size = size.saturating_add(infos[k].size);
        compressed = compressed.saturating_add(infos[k].compressed_size);
        k = k + 1;
    }
    assert(infos@.subrange(0, infos@.len() as int) =~= infos@);
    (size, compressed)
}

} // verus!
