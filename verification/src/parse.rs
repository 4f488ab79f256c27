//! Parsing a line-oriented loot-table description into a [`LootTable`].
//!
//! Lines beginning with `#` are comments and are ignored. The first
//! non-comment line must be exactly `Weighted` or `Uniform` and fixes the
//! table's mode. Every later non-comment line is a data line: under `Uniform`
//! the whole line is the item's name; under `Weighted` the line must split on
//! the two-character separator `!!` into exactly a name and a base-10
//! non-negative integer weight.

use vstd::prelude::*;

use crate::table::EntryModel;
use crate::table::LootEntry;
use crate::table::LootTable;
use crate::table::Mode;
use crate::table::TableModel;
use crate::table::entry_matches_mode;

verus! {

/// Why a description failed to parse. Each variant carries the zero-based
/// index of the offending line in the input sequence.
#[derive(Clone, Copy, Debug, PartialEq, Eq, Structural)]
pub enum ParseError {
    /// The first non-comment line is not `Weighted` or `Uniform`; the index
    /// is one past the last line when no non-comment line exists at all.
    InvalidFormatHeader { line: usize },
    /// A weighted data line does not split on `!!` into exactly two tokens.
    MalformedWeightedLine { line: usize },
    /// A weight token is not a valid base-10 non-negative integer that fits
    /// in 64 bits.
    InvalidWeight { line: usize },
}

/// A comment line: one that begins with `#`.
pub open spec fn is_comment(line: Seq<char>) -> bool {
    line.len() > 0 && line[0] == '#'
}

/// The separator `!!` occurs in `line` at position `i`.
pub open spec fn sep_at(line: Seq<char>, i: int) -> bool {
    0 <= i && i + 2 <= line.len() && line[i] == '!' && line[i + 1] == '!'
}

/// The first position at or after `from` where `!!` occurs, scanning left to
/// right, or `None` if it does not occur there.
pub open spec fn spec_find_sep(line: Seq<char>, from: int) -> Option<int>
    decreases line.len() - from,
{
    if from + 2 > line.len() {
        None
    } else if sep_at(line, from) {
        Some(from)
    } else {
        spec_find_sep(line, from + 1)
    }
}

/// Splitting a weighted data line on `!!`: the name to the left of the first
/// separator and the weight token to its right, or `None` unless the line
/// splits into exactly two tokens (one separator, scanned left to right and
/// non-overlapping, as `str::split` tokenizes).
pub open spec fn spec_split_weighted(line: Seq<char>) -> Option<(Seq<char>, Seq<char>)> {
    match spec_find_sep(line, 0) {
        None => None,
        Some(i) => {
            if spec_find_sep(line, i + 2) is Some {
                None
            } else {
                Some((line.subrange(0, i), line.subrange(i + 2, line.len() as int)))
            }
        },
    }
}

/// A base-10 digit.
pub open spec fn is_digit(c: char) -> bool {
    '0' <= c && c <= '9'
}

/// The numeric value of a digit character.
pub open spec fn digit_val(c: char) -> int {
    c as int - '0' as int
}

/// Every character of `s` is a base-10 digit.
pub open spec fn all_digits(s: Seq<char>) -> bool {
    forall|i: int| 0 <= i < s.len() ==> is_digit(#[trigger] s[i])
}

/// The value of `s` read as a base-10 numeral.
pub open spec fn dec_val(s: Seq<char>) -> int
    decreases s.len(),
{
    if s.len() == 0 {
        0
    } else {
        dec_val(s.drop_last()) * 10 + digit_val(s.last())
    }
}

/// The weight a token denotes: its base-10 value, provided the token is
/// non-empty, all digits, and the value fits in 64 bits; `None` otherwise.
pub open spec fn spec_parse_weight(s: Seq<char>) -> Option<u64> {
    if s.len() > 0 && all_digits(s) && dec_val(s) <= u64::MAX {
        Some(dec_val(s) as u64)
    } else {
        None
    }
}

/// The mode declared by the first non-comment line at or after index `i`,
/// together with that line's index.
pub open spec fn spec_find_header(lines: Seq<Seq<char>>, i: int) -> Result<(Mode, int), ParseError>
    decreases lines.len() - i,
{
    if i >= lines.len() {
        Err(ParseError::InvalidFormatHeader { line: i as usize })
    } else if is_comment(lines[i]) {
        spec_find_header(lines, i + 1)
    } else if lines[i] == "Weighted"@ {
        Ok((Mode::Weighted, i))
    } else if lines[i] == "Uniform"@ {
        Ok((Mode::Uniform, i))
    } else {
        Err(ParseError::InvalidFormatHeader { line: i as usize })
    }
}

/// The entries denoted by the data lines from index `i` on, appended to
/// `acc`, or the first structural error among them.
pub open spec fn spec_parse_entries(
    lines: Seq<Seq<char>>,
    i: int,
    mode: Mode,
    acc: Seq<EntryModel>,
) -> Result<Seq<EntryModel>, ParseError>
    decreases lines.len() - i,
{
    if i >= lines.len() {
        Ok(acc)
    } else if is_comment(lines[i]) {
        spec_parse_entries(lines, i + 1, mode, acc)
    } else if mode == Mode::Uniform {
        spec_parse_entries(
            lines,
            i + 1,
            mode,
            acc.push(EntryModel::Unweighted { name: lines[i] }),
        )
    } else {
        match spec_split_weighted(lines[i]) {
            None => Err(ParseError::MalformedWeightedLine { line: i as usize }),
            Some((name, tok)) => match spec_parse_weight(tok) {
                None => Err(ParseError::InvalidWeight { line: i as usize }),
                Some(w) => spec_parse_entries(
                    lines,
                    i + 1,
                    mode,
                    acc.push(EntryModel::Weighted { name: name, weight: w }),
                ),
            },
        }
    }
}

/// The table denoted by a sequence of input lines, or the first parse error:
/// the mode from the first non-comment line, then the entries of the data
/// lines after it, in input order. A function of the input alone, so parsing
/// is deterministic.
pub open spec fn spec_parse(lines: Seq<Seq<char>>) -> Result<TableModel, ParseError> {
    match spec_find_header(lines, 0) {
        Err(e) => Err(e),
        Ok((mode, h)) => match spec_parse_entries(lines, h + 1, mode, Seq::empty()) {
            Err(e) => Err(e),
            Ok(entries) => Ok(TableModel { mode: mode, entries: entries }),
        },
    }
}

/// Parsing is deterministic: the same input lines always denote the same
/// outcome, table or error. [`parse`] returns exactly this denotation, so two
/// calls on equal inputs return equal results.
pub proof fn lemma_parse_deterministic(a: Seq<Seq<char>>, b: Seq<Seq<char>>)
    requires
        a == b,
    ensures
        spec_parse(a) == spec_parse(b),
{
}

/// A position `spec_find_sep` returns really carries the separator and lies
/// at or after the start of the scan.
proof fn lemma_find_sep_sep_at(line: Seq<char>, from: int)
    ensures
        spec_find_sep(line, from) matches Some(i) ==> from <= i && sep_at(line, i),
    decreases line.len() - from,
{
    if from + 2 <= line.len() && !sep_at(line, from) {
        lemma_find_sep_sep_at(line, from + 1);
    }
}

/// The first occurrence of `!!` in `line` at or after `from`, scanning left
/// to right, as [`spec_find_sep`] gives it.
fn find_sep(line: &str, from: usize) -> (r: Option<usize>)
    requires
        from <= line@.len(),
    ensures
        match r {
            Some(i) => spec_find_sep(line@, from as int) == Some(i as int),
            None => spec_find_sep(line@, from as int) is None,
        },
{
    let n = line.unicode_len();
    let mut i: usize = from;
    while i < n && i + 1 < n
        invariant
            n == line@.len(),
            from <= i <= n,
            spec_find_sep(line@, from as int) == spec_find_sep(line@, i as int),
        decreases n - i,
    {
        if line.get_char(i) == '!' && line.get_char(i + 1) == '!' {
            return Some(i);
        }
        proof {
            assert(!sep_at(line@, i as int));
        }
        i += 1;
    }
    None
}

/// Split a weighted data line on `!!` into its name and weight token,
/// exactly as [`spec_split_weighted`] does.
fn split_weighted<'a>(line: &'a str) -> (r: Option<(&'a str, &'a str)>)
    ensures
        match spec_split_weighted(line@) {
            None => r is None,
            Some(p) => r matches Some(q) && q.0@ == p.0 && q.1@ == p.1,
        },
{
    let n = line.unicode_len();
    match find_sep(line, 0) {
        None => None,
        Some(i) => {
            proof {
                lemma_find_sep_sep_at(line@, 0);
            }
            match find_sep(line, i + 2) {
                Some(_) => None,
                None => {
                    let name = line.substring_char(0, i);
                    let tok = line.substring_char(i + 2, n);
                    Some((name, tok))
                },
            }
        },
    }
}

/// A numeral all of whose characters are digits has a non-negative value.
proof fn lemma_dec_val_nonneg(s: Seq<char>)
    requires
        all_digits(s),
    ensures
        dec_val(s) >= 0,
    decreases s.len(),
{
    if s.len() > 0 {
        lemma_dec_val_nonneg(s.drop_last());
    }
}

/// Reading more digits never shrinks the value of a numeral: the value of a
/// prefix is at most the value of a longer prefix.
proof fn lemma_dec_val_take_monotone(s: Seq<char>, i: int, j: int)
    requires
        0 <= i <= j <= s.len(),
        forall|k: int| 0 <= k < j ==> is_digit(#[trigger] s[k]),
    ensures
        dec_val(s.take(i)) <= dec_val(s.take(j)),
    decreases j - i,
{
    if i < j {
        lemma_dec_val_take_monotone(s, i, j - 1);
        assert(s.take(j).drop_last() =~= s.take(j - 1));
        assert(all_digits(s.take(j - 1)));
        lemma_dec_val_nonneg(s.take(j - 1));
    }
}

/// Read a weight token as a base-10 non-negative integer, exactly as
/// [`spec_parse_weight`] gives it: `None` on an empty token, a non-digit
/// character, or a value beyond 64 bits.
fn parse_weight(tok: &str) -> (r: Option<u64>)
    ensures
        r == spec_parse_weight(tok@),
{
    let n = tok.unicode_len();
    if n == 0 {
        return None;
    }
    let mut val: u64 = 0;
    let mut i: usize = 0;
    while i < n
        invariant
            n == tok@.len(),
            0 < n,
            i <= n,
            forall|k: int| 0 <= k < i ==> is_digit(#[trigger] tok@[k]),
            val == dec_val(tok@.take(i as int)),
        decreases n - i,
    {
        let c = tok.get_char(i);
        let d = c as u32;
        if d < 48 || d > 57 {
            proof {
                assert(!is_digit(tok@[i as int]));
            }
            return None;
        }
        proof {
            assert(tok@.take(i as int + 1).drop_last() =~= tok@.take(i as int));
            assert(tok@.take(i as int + 1).last() == tok@[i as int]);
        }
        let next = match val.checked_mul(10) {
            Some(v) => v.checked_add((d - 48) as u64),
            None => None,
        };
        val = match next {
            Some(v) => v,
            None => {
                proof {
                    assert(dec_val(tok@.take(i as int + 1)) > u64::MAX);
                    if all_digits(tok@) {
                        lemma_dec_val_take_monotone(tok@, i as int + 1, n as int);
                        assert(tok@.take(n as int) =~= tok@);
                    }
                }
                return None;
            },
        };
        i += 1;
    }
    proof {
        assert(tok@.take(n as int) =~= tok@);
    }
    Some(val)
}

/// Find the header line: the first non-comment line, which must read
/// `Weighted` or `Uniform`, exactly as [`spec_find_header`] gives it.
fn find_header(lines: &Vec<String>) -> (r: Result<(Mode, usize), ParseError>)
    ensures
        match r {
            Ok(p) => spec_find_header(lines.deep_view(), 0) == Ok::<(Mode, int), ParseError>(
                (p.0, p.1 as int),
            ) && p.1 < lines@.len(),
            Err(e) => spec_find_header(lines.deep_view(), 0) == Err::<(Mode, int), ParseError>(e),
        },
{
    let ghost ls = lines.deep_view();
    let n = lines.len();
    let header_w: String = "Weighted".to_owned();
    let header_u: String = "Uniform".to_owned();
    let mut i: usize = 0;
    while i < n
        invariant
            ls == lines.deep_view(),
            n == lines@.len(),
            n == ls.len(),
            i <= n,
            header_w@ == "Weighted"@,
            header_u@ == "Uniform"@,
            spec_find_header(ls, 0) == spec_find_header(ls, i as int),
        decreases n - i,
    {
        let line: &String = &lines[i];
        proof {
            assert(ls[i as int] == line@);
        }
        let s = line.as_str();
        let len = s.unicode_len();
        if len > 0 && s.get_char(0) == '#' {
            proof {
                assert(is_comment(ls[i as int]));
            }
            i += 1;
        } else if *line == header_w {
            return Ok((Mode::Weighted, i));
        } else if *line == header_u {
            return Ok((Mode::Uniform, i));
        } else {
            return Err(ParseError::InvalidFormatHeader { line: i });
        }
    }
    Err(ParseError::InvalidFormatHeader { line: n })
}

/// Parse a loot-table description, one string per input line, into a table.
///
/// Returns exactly what [`spec_parse`] denotes: parsing is a pure function of
/// the input lines, so the same input always yields the same table. On
/// success the table is well-formed (every entry matches the declared mode)
/// and its entries stand in input-line order; on failure no partial table is
/// returned, and the error carries the index of the offending line.
pub fn parse(lines: &Vec<String>) -> (r: Result<LootTable, ParseError>)
    ensures
        match r {
            Ok(t) => spec_parse(lines.deep_view()) == Ok::<TableModel, ParseError>(t@) && t.wf(),
            Err(e) => spec_parse(lines.deep_view()) == Err::<TableModel, ParseError>(e),
        },
{
    let ghost ls = lines.deep_view();
    let (mode, h) = match find_header(lines) {
        Ok(p) => p,
        Err(e) => {
            return Err(e);
        },
    };
    let n = lines.len();
    let mut entries: Vec<LootEntry> = Vec::new();
    let mut i: usize = h + 1;
    proof {
        assert(entries.deep_view() =~= Seq::<EntryModel>::empty());
    }
    while i < n
        invariant
            ls == lines.deep_view(),
            n == lines@.len(),
            n == ls.len(),
            i <= n,
            spec_find_header(ls, 0) == Ok::<(Mode, int), ParseError>((mode, h as int)),
            h < n,
            h < i,
            spec_parse_entries(ls, h as int + 1, mode, Seq::empty()) == spec_parse_entries(
                ls,
                i as int,
                mode,
                entries.deep_view(),
            ),
            forall|j: int|
                0 <= j < entries.deep_view().len() ==> entry_matches_mode(
                    #[trigger] entries.deep_view()[j],
                    mode,
                ),
        decreases n - i,
    {
        let line: &String = &lines[i];
        proof {
            assert(ls[i as int] == line@);
        }
        let s = line.as_str();
        let len = s.unicode_len();
        if len > 0 && s.get_char(0) == '#' {
            proof {
                assert(is_comment(ls[i as int]));
            }
            i += 1;
        } else {
            match mode {
                Mode::Uniform => {
                    let entry = LootEntry::Unweighted { name: line.clone() };
                    let ghost old_dv = entries.deep_view();
                    entries.push(entry);
                    proof {
                        assert(entries.deep_view() =~= old_dv.push(
                            EntryModel::Unweighted { name: ls[i as int] },
                        ));
                    }
                    i += 1;
                },
                Mode::Weighted => {
                    match split_weighted(s) {
                        None => {
                            return Err(ParseError::MalformedWeightedLine { line: i });
                        },
                        Some((name_s, tok)) => {
                            match parse_weight(tok) {
                                None => {
                                    return Err(ParseError::InvalidWeight { line: i });
                                },
                                Some(w) => {
                                    let entry = LootEntry::Weighted {
                                        name: name_s.to_owned(),
                                        weight: w,
                                    };
                                    let ghost old_dv = entries.deep_view();
                                    entries.push(entry);
                                    proof {
                                        assert(entries.deep_view() =~= old_dv.push(
                                            EntryModel::Weighted {
                                                name: name_s@,
                                                weight: w,
                                            },
                                        ));
                                    }
                                    i += 1;
                                },
                            }
                        },
                    }
                },
            }
        }
    }
    let t = LootTable { mode: mode, entries: entries };
    Ok(t)
}

} // verus!
