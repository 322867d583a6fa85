//! Glob matching over `/`-separated names.
//!
//! - `*` matches zero or more bytes, none of them `/`;
//! - `**` matches zero or more bytes, `/` included; one `/` right after it in
//!   the pattern is taken along, so that `**/*.rs` also matches `main.rs`;
//! - `?` matches exactly one byte that is not `/`;
//! - every other byte matches itself.
//!
//! Matching is byte-wise and case-sensitive.

use vstd::prelude::*;
use vstd::string::StringSliceAdditionalSpecFns;

verus! {

/// The byte `*`.
pub const STAR: u8 = 42;

/// The byte `?`.
pub const QUESTION: u8 = 63;

/// The byte `/`.
pub const SLASH: u8 = 47;

/// What `glob_match(p, t)` returns, on the bytes of the pattern and the text.
pub open spec fn glob_spec(p: Seq<u8>, t: Seq<u8>) -> bool
    decreases p.len() + t.len(),
{
    if p.len() == 0 {
        t.len() == 0
    } else if p[0] == STAR && p.len() >= 2 && p[1] == STAR {
        let rest = after_double_star(p);
        if rest.len() == 0 {
            true
        } else {
            // the rest of the pattern matches some suffix of the text
            glob_spec(rest, t) || (t.len() > 0 && glob_spec(p, t.drop_first()))
        }
    } else if p[0] == STAR {
        glob_spec(p.drop_first(), t) || (t.len() > 0 && t[0] != SLASH && glob_spec(
            p,
            t.drop_first(),
        ))
    } else if p[0] == QUESTION {
        t.len() > 0 && t[0] != SLASH && glob_spec(p.drop_first(), t.drop_first())
    } else {
        t.len() > 0 && t[0] == p[0] && glob_spec(p.drop_first(), t.drop_first())
    }
}

/// The pattern that follows a leading `**`, without the one `/` that may come
/// right after it.
pub open spec fn after_double_star(p: Seq<u8>) -> Seq<u8>
    recommends
        p.len() >= 2,
{
    if p.len() >= 3 && p[2] == SLASH {
        p.subrange(3, p.len() as int)
    } else {
        p.subrange(2, p.len() as int)
    }
}

/// Whether the pattern suffix from `i` matches the text suffix from `j`.
pub open spec fn glob_from(p: Seq<u8>, t: Seq<u8>, i: int, j: int) -> bool {
    glob_spec(p.subrange(i, p.len() as int), t.subrange(j, t.len() as int))
}

/// Where the pattern suffix that follows a `**` at `i` begins.
pub open spec fn double_star_rest(p: Seq<u8>, i: int) -> int {
    if i + 2 < p.len() && p[i + 2] == SLASH {
        i + 3
    } else {
        i + 2
    }
}

/// One step of the matching recursion, read on suffix positions.
proof fn lemma_glob_from_unfold(p: Seq<u8>, t: Seq<u8>, i: int, j: int)
    requires
        0 <= i <= p.len(),
        0 <= j <= t.len(),
    ensures
        i == p.len() ==> (glob_from(p, t, i, j) == (j == t.len())),
        i < p.len() && p[i] == STAR && i + 1 < p.len() && p[i + 1] == STAR ==> {
            let r = double_star_rest(p, i);
            glob_from(p, t, i, j) == (r == p.len() || glob_from(p, t, r, j) || (j < t.len()
                && glob_from(p, t, i, j + 1)))
        },
        i < p.len() && p[i] == STAR && !(i + 1 < p.len() && p[i + 1] == STAR) ==> glob_from(
            p,
            t,
            i,
            j,
        ) == (glob_from(p, t, i + 1, j) || (j < t.len() && t[j] != SLASH && glob_from(
            p,
            t,
            i,
            j + 1,
        ))),
        i < p.len() && p[i] == QUESTION ==> glob_from(p, t, i, j) == (j < t.len() && t[j] != SLASH
            && glob_from(p, t, i + 1, j + 1)),
        i < p.len() && p[i] != STAR && p[i] != QUESTION ==> glob_from(p, t, i, j) == (j < t.len()
            && t[j] == p[i] && glob_from(p, t, i + 1, j + 1)),
{
    let ps = p.subrange(i, p.len() as int);
    let ts = t.subrange(j, t.len() as int);
    if i < p.len() {
        assert(ps.drop_first() =~= p.subrange(i + 1, p.len() as int));
        if j < t.len() {
            assert(ts.drop_first() =~= t.subrange(j + 1, t.len() as int));
        }
        if ps.len() >= 2 {
            let r = double_star_rest(p, i);
            assert(after_double_star(ps) =~= p.subrange(r, p.len() as int));
        }
    }
}

/// Whether `text` matches the glob `pattern`.
pub fn glob_match(pattern: &str, text: &str) -> (r: bool)
    ensures
        r == glob_spec(pattern.spec_bytes(), text.spec_bytes()),
{
    glob_match_impl(pattern.as_bytes(), text.as_bytes())
}

/// Whether `pattern[c..]` matches `text[j..]`, read off the rows already
/// computed (`rows[k]` for pattern position `pattern.len() - k`, for every
/// position after `c`) and off the part of row `c` that lies after `j`.
fn glob_cell(pattern: &[u8], text: &[u8], rows: &Vec<Vec<bool>>, row: &Vec<bool>, c: usize, j: usize) -> (r: bool)
    requires
        c < pattern@.len(),
        j <= text@.len(),
        rows@.len() == pattern@.len() - c,
        forall|k: int| 0 <= k < rows@.len() ==> #[trigger] rows@[k]@.len() == text@.len() + 1,
        forall|k: int, d: int|
            0 <= k < rows@.len() && 0 <= d <= text@.len() ==> #[trigger] rows@[k]@[d]
                == glob_from(pattern@, text@, pattern@.len() - k, d),
        row@.len() == text@.len() + 1,
        forall|d: int| j < d <= text@.len() ==> #[trigger] row@[d] == glob_from(pattern@, text@, c as int, d),
    ensures
        r == glob_from(pattern@, text@, c as int, j as int),
{
    proof {
        lemma_glob_from_unfold(pattern@, text@, c as int, j as int);
    }
    let plen = pattern.len();
    let tlen = text.len();
    let pc = pattern[c];
    if pc == STAR && c + 1 < plen && pattern[c + 1] == STAR {
        let mut rest: usize = c + 2;
        if rest < plen && pattern[rest] == SLASH {
            rest = rest + 1;
        }
        rest == plen || rows[plen - rest][j] || (j < tlen && row[j + 1])
    } else if pc == STAR {
        rows[plen - c - 1][j] || (j < tlen && text[j] != SLASH && row[j + 1])
    } else if pc == QUESTION {
        j < tlen && text[j] != SLASH && rows[plen - c - 1][j + 1]
    } else {
        j < tlen && text[j] == pc && rows[plen - c - 1][j + 1]
    }
}

/// Glob matching on bytes, by a table over the suffixes of the pattern and of
/// the text: row `i`, column `j` tells whether `pattern[i..]` matches
/// `text[j..]`. Rows are filled from the end of the pattern backwards, and
/// each row from the end of the text backwards, so that every value is read
/// only after it has been computed.
pub fn glob_match_impl(pattern: &[u8], text: &[u8]) -> (r: bool)
    ensures
        r == glob_spec(pattern@, text@),
{
    let ghost p = pattern@;
    let ghost t = text@;
    let plen = pattern.len();
    let tlen = text.len();

    // rows[k] is the row of pattern position plen - k; the empty pattern
    // matches the empty text only
    let mut rows: Vec<Vec<bool>> = Vec::new();
    let mut last: Vec<bool> = Vec::new();
    let mut j: usize = 0;
    while j < tlen
        invariant
            j <= tlen,
            tlen == t.len(),
            plen == p.len(),
            last@.len() == j,
            forall|k: int| 0 <= k < j ==> last@[k] == glob_from(p, t, plen as int, k),
        decreases tlen - j,
    {
        proof {
            lemma_glob_from_unfold(p, t, plen as int, j as int);
        }
        last.push(false);
        j = j + 1;
    }
    proof {
        lemma_glob_from_unfold(p, t, plen as int, tlen as int);
    }
    last.push(true);
    rows.push(last);

    let mut i: usize = plen;
    while i > 0
        invariant
            i <= plen,
            tlen == t.len(),
            plen == p.len(),
            pattern@ == p,
            text@ == t,
            rows@.len() == plen - i + 1,
            forall|k: int| 0 <= k < rows@.len() ==> #[trigger] rows@[k]@.len() == tlen + 1,
            forall|k: int, c: int|
                0 <= k < rows@.len() && 0 <= c <= tlen ==> #[trigger] rows@[k]@[c]
                    == glob_from(p, t, plen - k, c),
        decreases i,
    {
        let c = i - 1;
        let mut row: Vec<bool> = Vec::new();
        let mut n: usize = 0;
        while n < tlen
            invariant
                n <= tlen,
                row@.len() == n,
            decreases tlen - n,
        {
            row.push(false);
            n = n + 1;
        }
        row.push(false);
        let v = glob_cell(pattern, text, &rows, &row, c, tlen);
        row.set(tlen, v);
        let mut j: usize = tlen;
        while j > 0
            invariant
                j <= tlen,
                c < plen,
                i == c + 1,
                tlen == t.len(),
                plen == p.len(),
                pattern@ == p,
                text@ == t,
                rows@.len() == plen - i + 1,
                forall|k: int| 0 <= k < rows@.len() ==> #[trigger] rows@[k]@.len() == tlen + 1,
                forall|k: int, d: int|
                    0 <= k < rows@.len() && 0 <= d <= tlen ==> #[trigger] rows@[k]@[d]
                        == glob_from(p, t, plen - k, d),
                row@.len() == tlen + 1,
                forall|d: int| j <= d <= tlen ==> #[trigger] row@[d] == glob_from(p, t, c as int, d),
            decreases j,
        {
            j = j - 1;
            let v = glob_cell(pattern, text, &rows, &row, c, j);
            row.set(j, v);
        }
        rows.push(row);
        i = c;
    }
    proof {
        assert(p.subrange(0, p.len() as int) =~= p);
        assert(t.subrange(0, t.len() as int) =~= t);
    }
    rows[plen][0]
}

/// A pattern without `*` or `?` matches exactly the text that equals it.
pub proof fn lemma_literal_pattern(p: Seq<u8>, t: Seq<u8>)
    requires
        forall|k: int| 0 <= k < p.len() ==> p[k] != STAR && p[k] != QUESTION,
    ensures
        glob_spec(p, t) <==> p == t,
    decreases p.len(),
{
    if p.len() == 0 {
        if t.len() == 0 {
            assert(p =~= t);
        }
    } else if t.len() > 0 {
        lemma_literal_pattern(p.drop_first(), t.drop_first());
        if t.len() > 0 && t[0] == p[0] && p.drop_first() == t.drop_first() {
            assert(p =~= t.drop_first().insert(0, p[0]));
            assert(t =~= t.drop_first().insert(0, t[0]));
        }
        if p == t {
            assert(p.drop_first() =~= t.drop_first());
        }
    }
}

/// A lone `*` matches a text exactly when the text holds no `/`.
pub proof fn lemma_star_stays_in_segment(t: Seq<u8>)
    ensures
        glob_spec(seq![STAR], t) <==> forall|k: int| 0 <= k < t.len() ==> t[k] != SLASH,
    decreases t.len(),
{
    let p = seq![STAR];
    assert(p.drop_first() =~= Seq::<u8>::empty());
    assert(glob_spec(Seq::<u8>::empty(), t) == (t.len() == 0));
    assert(glob_spec(p, t) == (glob_spec(p.drop_first(), t) || (t.len() > 0 && t[0] != SLASH
        && glob_spec(p, t.drop_first()))));
    if t.len() > 0 {
        lemma_star_stays_in_segment(t.drop_first());
        if forall|k: int| 0 <= k < t.len() ==> t[k] != SLASH {
            assert forall|k: int| 0 <= k < t.drop_first().len() implies t.drop_first()[k] != SLASH by {
                assert(t.drop_first()[k] == t[k + 1]);
            }
        }
        if glob_spec(p, t) {
            assert forall|k: int| 0 <= k < t.len() implies t[k] != SLASH by {
                if k > 0 {
                    assert(t[k] == t.drop_first()[k - 1]);
                }
            }
        }
    }
}

/// A lone `**` matches every text, across any number of `/`.
pub proof fn lemma_double_star_matches_all(t: Seq<u8>)
    ensures
        glob_spec(seq![STAR, STAR], t),
{
    assert(after_double_star(seq![STAR, STAR]) =~= Seq::<u8>::empty());
}

/// A lone `?` matches exactly one byte, and that byte is not `/`.
pub proof fn lemma_question_one_byte(t: Seq<u8>)
    ensures
        glob_spec(seq![QUESTION], t) <==> (t.len() == 1 && t[0] != SLASH),
{
    let p = seq![QUESTION];
    assert(p.drop_first() =~= Seq::<u8>::empty());
    if t.len() > 0 {
        reveal_with_fuel(glob_spec, 2);
    }
}

} // verus!
