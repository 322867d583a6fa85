//! Lines of the plain and verbose content listings.

use vstd::prelude::*;
use vstd::string::StringExecFns;
use crate::datetime::ArchiveDateTime;
use crate::format::{decimal, format_size, hex_digits, pad_left, push_hex, push_number_right, push_text_right, size_text};
use crate::zipinfo::{compression_ratio, datetime_text, format_datetime, ratio_spec};

verus! {

/// A line of the plain listing: the size for people, the time and the name.
pub open spec fn list_line_text(size: u64, mtime: Option<ArchiveDateTime>, name: Seq<char>) -> Seq<
    char,
> {
    pad_left(size_text(size), 10) + "  "@ + datetime_text(mtime) + "  "@ + name + "\n"@
}

/// Appends the plain listing line of an entry.
pub fn push_list_line(out: &mut String, size: u64, mtime: Option<ArchiveDateTime>, name: &str)
    ensures
        final(out)@ == old(out)@ + list_line_text(size, mtime, name@),
{
    let size_str = format_size(size);
    push_text_right(out, size_str.as_str(), 10);
    out.append("  ");
    let dt = format_datetime(mtime);
    out.append(dt.as_str());
    out.append("  ");
    out.append(name);
    out.append("\n");
    assert(final(out)@ =~= old(out)@ + list_line_text(size, mtime, name@));
}

/// A line of the verbose listing: size, compressed size, ratio, time,
/// checksum and name.
pub open spec fn verbose_line_text(
    size: u64,
    compressed: u64,
    mtime: Option<ArchiveDateTime>,
    crc: u32,
    name: Seq<char>,
) -> Seq<char> {
    pad_left(decimal(size as nat), 8) + "  "@ + pad_left(decimal(compressed as nat), 8) + "  "@
        + pad_left(decimal(ratio_spec(size, compressed) as nat), 4) + "%  "@ + datetime_text(mtime)
        + "  "@ + hex_digits(crc as nat, 8) + "  "@ + name + "\n"@
}

/// Appends the verbose listing line of an entry.
pub fn push_verbose_line(
    out: &mut String,
    size: u64,
    compressed: u64,
    mtime: Option<ArchiveDateTime>,
    crc: u32,
    name: &str,
)
    ensures
        final(out)@ == old(out)@ + verbose_line_text(size, compressed, mtime, crc, name@),
{
    push_number_right(out, size, 8);
    out.append("  ");
    push_number_right(out, compressed, 8);
    out.append("  ");
    push_number_right(out, compression_ratio(size, compressed), 4);
    out.append("%  ");
    let dt = format_datetime(mtime);
    out.append(dt.as_str());
    out.append("  ");
    push_hex(out, crc, 8);
    out.append("  ");
    out.append(name);
    out.append("\n");
    assert(final(out)@ =~= old(out)@ + verbose_line_text(size, compressed, mtime, crc, name@));
}

/// The closing line of the plain listing: total size and number of files.
pub open spec fn list_total_text(total_size: u64, files: u64) -> Seq<char> {
    pad_left(size_text(total_size), 10) + "  "@ + pad_left(Seq::empty(), 19) + "  "@ + decimal(
        files as nat,
    ) + " files\n"@
}

/// Appends the closing line of the plain listing.
pub fn push_list_total(out: &mut String, total_size: u64, files: u64)
    ensures
        final(out)@ == old(out)@ + list_total_text(total_size, files),
{
    let size_str = format_size(total_size);
    push_text_right(out, size_str.as_str(), 10);
    out.append("  ");
    proof {
        reveal_strlit("");
    }
    push_text_right(out, "", 19);
    out.append("  ");
    push_number_right(out, files, 0);
    out.append(" files\n");
    assert(pad_left(decimal(files as nat), 0) =~= decimal(files as nat));
    assert(final(out)@ =~= old(out)@ + list_total_text(total_size, files));
}

/// The closing line of the verbose listing: totals, overall ratio and
/// number of files.
pub open spec fn verbose_total_text(total_size: u64, total_compressed: u64, files: u64) -> Seq<char> {
    pad_left(decimal(total_size as nat), 8) + "  "@ + pad_left(decimal(total_compressed as nat), 8)
        + "  "@ + pad_left(decimal(ratio_spec(total_size, total_compressed) as nat), 4) + "%  "@
        + pad_left(Seq::empty(), 19) + "  "@ + pad_left(Seq::empty(), 8) + "  "@ + decimal(
        files as nat,
    ) + " files\n"@
}

/// Appends the closing line of the verbose listing.
pub fn push_verbose_total(out: &mut String, total_size: u64, total_compressed: u64, files: u64)
    ensures
        final(out)@ == old(out)@ + verbose_total_text(total_size, total_compressed, files),
{
    let ghost start = out@;
    push_number_right(out, total_size, 8);
    out.append("  ");
    push_number_right(out, total_compressed, 8);
    out.append("  ");
    push_number_right(out, compression_ratio(total_size, total_compressed), 4);
    out.append("%  ");
    let ghost numbers = out@;
    proof {
        reveal_strlit("");
    }
    push_text_right(out, "", 19);
    out.append("  ");
    push_text_right(out, "", 8);
    out.append("  ");
    push_number_right(out, files, 0);
    out.append(" files\n");
    assert(pad_left(decimal(files as nat), 0) =~= decimal(files as nat));
    assert(out@ =~= numbers + (pad_left(Seq::empty(), 19) + "  "@ + pad_left(Seq::empty(), 8) + "  "@
        + decimal(files as nat) + " files\n"@));
    assert(numbers =~= start + (pad_left(decimal(total_size as nat), 8) + "  "@ + pad_left(
        decimal(total_compressed as nat),
        8,
    ) + "  "@ + pad_left(decimal(ratio_spec(total_size, total_compressed) as nat), 4) + "%  "@));
    assert(out@ =~= start + verbose_total_text(total_size, total_compressed, files));
}

} // verus!
