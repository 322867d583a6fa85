//! Choice of the archive entries to extract, by glob patterns.
//!
//! An entry is left out when its name matches any exclude pattern; otherwise
//! it is selected when there are no selection patterns, or when its name
//! matches one of them. With case-insensitive matching, the patterns and the
//! name are lower-cased byte by byte over the ASCII range before matching.

use vstd::prelude::*;
use vstd::string::StringSliceAdditionalSpecFns;
use vstd::utf8::encode_utf8;
use crate::glob::{glob_match_impl, glob_spec};

verus! {

/// ASCII lower-casing of one byte.
pub open spec fn ascii_lower_byte(b: u8) -> u8 {
    if 65 <= b <= 90 {
        (b + 32) as u8
    } else {
        b
    }
}

/// The bytes compared when matching: lower-cased when `case_insensitive`.
pub open spec fn fold_case(s: Seq<u8>, case_insensitive: bool) -> Seq<u8> {
    if case_insensitive {
        s.map_values(|b: u8| ascii_lower_byte(b))
    } else {
        s
    }
}

/// Every pattern of a list, folded.
pub open spec fn fold_all(pats: Seq<Seq<u8>>, case_insensitive: bool) -> Seq<Seq<u8>> {
    pats.map_values(|p: Seq<u8>| fold_case(p, case_insensitive))
}

/// The UTF-8 bytes of each string of a list.
pub open spec fn strings_bytes(v: Seq<String>) -> Seq<Seq<u8>> {
    v.map_values(|s: String| encode_utf8(s@))
}

/// Whether `name` matches at least one of the patterns.
pub open spec fn matches_any(pats: Seq<Seq<u8>>, name: Seq<u8>) -> bool {
    exists|k: int| 0 <= k < pats.len() && #[trigger] glob_spec(pats[k], name)
}

/// The selection rule on patterns and a name that have already been folded:
/// an exclude match rules the name out; else an empty selection list, or a
/// selection match, selects it.
pub open spec fn selects(wanted: Seq<Seq<u8>>, exclude: Seq<Seq<u8>>, name: Seq<u8>) -> bool {
    !matches_any(exclude, name) && (wanted.len() == 0 || matches_any(wanted, name))
}

/// Whether an entry named `name` is extracted, for the raw patterns given.
pub open spec fn should_extract_spec(
    name: Seq<u8>,
    patterns: Seq<Seq<u8>>,
    exclude: Seq<Seq<u8>>,
    case_insensitive: bool,
) -> bool {
    selects(
        fold_all(patterns, case_insensitive),
        fold_all(exclude, case_insensitive),
        fold_case(name, case_insensitive),
    )
}

/// A copy of `s`, lower-cased over the ASCII range when `case_insensitive`.
pub fn fold_bytes(s: &[u8], case_insensitive: bool) -> (r: Vec<u8>)
    ensures
        r@ == fold_case(s@, case_insensitive),
{
    let mut r: Vec<u8> = Vec::new();
    let mut k: usize = 0;
    while k < s.len()
        invariant
            k <= s@.len(),
            r@.len() == k,
            forall|m: int| 0 <= m < k ==> #[trigger] r@[m] == if case_insensitive {
                ascii_lower_byte(s@[m])
            } else {
                s@[m]
            },
        decreases s@.len() - k,
    {
        let b = s[k];
        if case_insensitive && 65 <= b && b <= 90 {
            r.push(b + 32);
        } else {
            r.push(b);
        }
        k = k + 1;
    }
    assert(r@ =~= fold_case(s@, case_insensitive));
    r
}

/// The folded bytes of each string of a list.
fn fold_strings(v: &[String], case_insensitive: bool) -> (r: Vec<Vec<u8>>)
    ensures
        r@.map_values(|p: Vec<u8>| p@) == fold_all(strings_bytes(v@), case_insensitive),
{
    let mut r: Vec<Vec<u8>> = Vec::new();
    let mut k: usize = 0;
    while k < v.len()
        invariant
            k <= v@.len(),
            r@.len() == k,
            forall|m: int|
                0 <= m < k ==> #[trigger] r@[m]@ == fold_case(encode_utf8(v@[m]@), case_insensitive),
        decreases v@.len() - k,
    {
        let bytes = v[k].as_str().as_bytes();
        r.push(fold_bytes(bytes, case_insensitive));
        k = k + 1;
    }
    assert(r@.map_values(|p: Vec<u8>| p@) =~= fold_all(strings_bytes(v@), case_insensitive));
    r
}

/// Whether `name` matches one of `pats`.
fn match_any(pats: &Vec<Vec<u8>>, name: &[u8]) -> (r: bool)
    ensures
        r == matches_any(pats@.map_values(|p: Vec<u8>| p@), name@),
{
    let ghost ps = pats@.map_values(|p: Vec<u8>| p@);
    let mut k: usize = 0;
    while k < pats.len()
        invariant
            k <= pats@.len(),
            ps == pats@.map_values(|p: Vec<u8>| p@),
            forall|m: int| 0 <= m < k ==> !glob_spec(#[trigger] ps[m], name@),
        decreases pats@.len() - k,
    {
        if glob_match_impl(pats[k].as_slice(), name) {
            assert(glob_spec(ps[k as int], name@));
            return true;
        }
        k = k + 1;
    }
    false
}

/// The selection and exclude patterns of a run, folded once when it starts.
pub struct EntryFilter {
    wanted: Vec<Vec<u8>>,
    exclude: Vec<Vec<u8>>,
    case_insensitive: bool,
}

impl EntryFilter {
    /// The selection patterns, as they are matched.
    pub closed spec fn patterns_spec(&self) -> Seq<Seq<u8>> {
        self.wanted@.map_values(|p: Vec<u8>| p@)
    }

    /// The exclude patterns, as they are matched.
    pub closed spec fn exclude_spec(&self) -> Seq<Seq<u8>> {
        self.exclude@.map_values(|p: Vec<u8>| p@)
    }

    /// Whether names are folded before matching.
    pub closed spec fn case_insensitive_spec(&self) -> bool {
        self.case_insensitive
    }

    /// The filter for the given patterns.
    pub fn new(patterns: &[String], exclude: &[String], case_insensitive: bool) -> (f: Self)
        ensures
            f.patterns_spec() == fold_all(strings_bytes(patterns@), case_insensitive),
            f.exclude_spec() == fold_all(strings_bytes(exclude@), case_insensitive),
            f.case_insensitive_spec() == case_insensitive,
    {
        EntryFilter {
            wanted: fold_strings(patterns, case_insensitive),
            exclude: fold_strings(exclude, case_insensitive),
            case_insensitive,
        }
    }

    /// Whether the entry named `name` is extracted.
    pub fn should_extract(&self, name: &str) -> (r: bool)
        ensures
            r == selects(
                self.patterns_spec(),
                self.exclude_spec(),
                fold_case(name.spec_bytes(), self.case_insensitive_spec()),
            ),
    {
        if self.wanted.len() == 0 && self.exclude.len() == 0 {
            return true;
        }
        let folded = fold_bytes(name.as_bytes(), self.case_insensitive);
        if match_any(&self.exclude, folded.as_slice()) {
            return false;
        }
        if self.wanted.len() == 0 {
            return true;
        }
        match_any(&self.wanted, folded.as_slice())
    }
}

/// Whether the entry named `name` is extracted under the selection patterns
/// `patterns` and the exclude patterns `exclude`.
pub fn should_extract(name: &str, patterns: &[String], exclude: &[String], case_insensitive: bool) -> (r: bool)
    ensures
        r == should_extract_spec(
            name.spec_bytes(),
            strings_bytes(patterns@),
            strings_bytes(exclude@),
            case_insensitive,
        ),
{
    let filter = EntryFilter::new(patterns, exclude, case_insensitive);
    filter.should_extract(name)
}

/// A name that matches an exclude pattern is never extracted, whatever the
/// selection patterns are.
pub proof fn lemma_exclude_dominates(
    name: Seq<u8>,
    patterns: Seq<Seq<u8>>,
    exclude: Seq<Seq<u8>>,
    case_insensitive: bool,
)
    requires
        matches_any(fold_all(exclude, case_insensitive), fold_case(name, case_insensitive)),
    ensures
        !should_extract_spec(name, patterns, exclude, case_insensitive),
{
}

/// With no selection and no exclude patterns, every name is extracted.
pub proof fn lemma_no_patterns_selects_all(name: Seq<u8>, case_insensitive: bool)
    ensures
        should_extract_spec(name, Seq::empty(), Seq::empty(), case_insensitive),
{
    assert(fold_all(Seq::<Seq<u8>>::empty(), case_insensitive) =~= Seq::<Seq<u8>>::empty());
}

} // verus!
