//! The line parser: recognizes data lines of the shape
//! `<hex digits>..<hex digits>; <name>` and turns a whole document into the
//! ordered sequence of its block records.

use vstd::prelude::*;

use crate::block::BlockData;
use crate::block::UnicodeBlock;
use crate::hex::hex_val;
use crate::hex::is_hex_digit;
use crate::hex::parse_hex;

verus! {

/// The characters admitted in a range bound: uppercase hex digits only.
pub open spec fn is_upper_hex(c: char) -> bool {
    ('0' as u32 <= c as u32 && c as u32 <= '9' as u32) || ('A' as u32 <= c as u32 && c as u32
        <= 'F' as u32)
}

/// Where the run of uppercase hex digits beginning at `from` ends: the first
/// position at or after `from` holding no such digit (or the end).
pub open spec fn hex_run_end(s: Seq<char>, from: int) -> int
    decreases s.len() - from,
{
    if from < s.len() && is_upper_hex(s[from]) {
        hex_run_end(s, from + 1)
    } else {
        from
    }
}

/// Whether a line has the recognized shape: one or more uppercase hex digits,
/// two periods, one or more uppercase hex digits, a semicolon and one space,
/// then the name, which runs to the end of the line and holds no line break.
pub open spec fn line_shape(s: Seq<char>) -> bool {
    let a = hex_run_end(s, 0);
    let b = hex_run_end(s, a + 2);
    &&& 0 < a
    &&& a + 2 <= s.len()
    &&& s[a] == '.'
    &&& s[a + 1] == '.'
    &&& a + 2 < b
    &&& b + 2 <= s.len()
    &&& s[b] == ';'
    &&& s[b + 1] == ' '
    &&& forall|k: int| b + 2 <= k < s.len() ==> (#[trigger] s[k]) != '\n'
}

/// The value of the first range bound of a line of the recognized shape.
pub open spec fn line_start_val(s: Seq<char>) -> nat {
    hex_val(s.take(hex_run_end(s, 0)))
}

/// The value of the second range bound of a line of the recognized shape.
pub open spec fn line_end_val(s: Seq<char>) -> nat {
    let a = hex_run_end(s, 0);
    hex_val(s.subrange(a + 2, hex_run_end(s, a + 2)))
}

/// The name carried by a line of the recognized shape: everything after the
/// semicolon and space, verbatim.
pub open spec fn line_name(s: Seq<char>) -> Seq<char> {
    let a = hex_run_end(s, 0);
    s.subrange(hex_run_end(s, a + 2) + 2, s.len() as int)
}

/// What parsing one line yields: a record exactly when the line has the
/// recognized shape and both bounds fit in 32 bits; nothing otherwise.
pub open spec fn line_record(s: Seq<char>) -> Option<BlockData> {
    if line_shape(s) && line_start_val(s) <= u32::MAX && line_end_val(s) <= u32::MAX {
        Some(
            BlockData {
                name: line_name(s),
                start: line_start_val(s) as u32,
                end: line_end_val(s) as u32,
            },
        )
    } else {
        None
    }
}

/// The end of the run of uppercase hex digits starting at `from`.
fn scan_hex_run(s: &str, from: usize) -> (e: usize)
    requires
        from <= s@.len(),
    ensures
        from <= e <= s@.len(),
        e == hex_run_end(s@, from as int),
        forall|k: int| from <= k < e ==> is_upper_hex(#[trigger] s@[k]),
        e < s@.len() ==> !is_upper_hex(s@[e as int]),
{
    let n: usize = s.unicode_len();
    let mut i: usize = from;
    while i < n && upper_hex(s.get_char(i))
        invariant
            n == s@.len(),
            from <= i <= n,
            hex_run_end(s@, from as int) == hex_run_end(s@, i as int),
            forall|k: int| from <= k < i ==> is_upper_hex(#[trigger] s@[k]),
        decreases n - i,
    {
        i = i + 1;
    }
    i
}

/// Whether one character is an uppercase hex digit.
fn upper_hex(c: char) -> (b: bool)
    ensures
        b == is_upper_hex(c),
{
    let v = c as u32;
    (48 <= v && v <= 57) || (65 <= v && v <= 70)
}

/// Parses one line of text. Yields the block record exactly when the line has
/// the recognized shape `<hex>..<hex>; <name>` and both bounds fit in 32
/// bits; yields nothing for every other line — blank lines, comments, prose —
/// which is expected filtering, not a failure.
pub fn parse_line(line: &str) -> (r: Option<UnicodeBlock>)
    ensures
        r is Some <==> line_record(line@) is Some,
        r matches Some(blk) ==> line_record(line@) == Some(blk@),
{
    let n: usize = line.unicode_len();
    let a = scan_hex_run(line, 0);
    if a == 0 {
        return None;
    }
    if n - a < 2 {
        return None;
    }
    if line.get_char(a) != '.' || line.get_char(a + 1) != '.' {
        return None;
    }
    let b = scan_hex_run(line, a + 2);
    if b == a + 2 {
        return None;
    }
    if n - b < 2 {
        return None;
    }
    if line.get_char(b) != ';' || line.get_char(b + 1) != ' ' {
        return None;
    }
    let mut k: usize = b + 2;
    while k < n
        invariant
            n == line@.len(),
            a as int == hex_run_end(line@, 0),
            b as int == hex_run_end(line@, a as int + 2),
            b + 2 <= k <= n,
            forall|j: int| b + 2 <= j < k ==> line@[j] != '\n',
        decreases n - k,
    {
        let c = line.get_char(k);
        if c == '\n' {
            proof {
                let ghost s = line@;
                let ghost aa = hex_run_end(s, 0);
                let ghost bb = hex_run_end(s, aa + 2);
                assert(aa == a as int);
                assert(bb == b as int);
                assert(bb + 2 <= k && (k as int) < s.len() && s[k as int] == '\n');
                assert(!line_shape(s));
            }
            return None;
        }
        k = k + 1;
    }
    let start_digits = line.substring_char(0, a);
    let end_digits = line.substring_char(a + 2, b);
    proof {
        assert(start_digits@ =~= line@.take(a as int));
        assert(end_digits@ =~= line@.subrange(a + 2, b as int));
        assert(line_shape(line@));
    }
    let start = match parse_hex(start_digits) {
        Some(v) => v,
        None => {
            return None;
        },
    };
    let end = match parse_hex(end_digits) {
        Some(v) => v,
        None => {
            return None;
        },
    };
    let name_str = line.substring_char(b + 2, n);
    let name = String::from_str(name_str);
    proof {
        assert(name@ =~= line_name(line@));
    }
    Some(UnicodeBlock { name, range: (start, end) })
}

/// The position of the first line feed at or after `from` (the end if none).
pub open spec fn first_nl(s: Seq<char>, from: int) -> int
    decreases s.len() - from,
{
    if from < s.len() {
        if s[from] == '\n' {
            from
        } else {
            first_nl(s, from + 1)
        }
    } else {
        s.len() as int
    }
}

/// A line terminator's optional carriage return, removed.
pub open spec fn strip_cr(t: Seq<char>) -> Seq<char> {
    if t.len() > 0 && t.last() == '\r' {
        t.drop_last()
    } else {
        t
    }
}

/// The first line feed lies between `from` and the end.
pub proof fn lemma_first_nl_bounds(s: Seq<char>, from: int)
    requires
        0 <= from <= s.len(),
    ensures
        from <= first_nl(s, from) <= s.len(),
    decreases s.len() - from,
{
    if from < s.len() && s[from] != '\n' {
        lemma_first_nl_bounds(s, from + 1);
    }
}

/// The document cut into lines: split at each line feed, a carriage return
/// directly before a line feed removed, and no empty final line after a
/// terminating line feed.
pub open spec fn lines_of(s: Seq<char>) -> Seq<Seq<char>>
    decreases s.len(),
    via lines_of_dec
{
    if s.len() == 0 {
        Seq::empty()
    } else {
        let i = first_nl(s, 0);
        if i == s.len() {
            seq![s]
        } else {
            seq![strip_cr(s.take(i))] + lines_of(s.subrange(i + 1, s.len() as int))
        }
    }
}

#[via_fn]
proof fn lines_of_dec(s: Seq<char>) {
    if s.len() != 0 {
        lemma_first_nl_bounds(s, 0);
    }
}

/// Cuts a document into its lines, as `lines_of` describes.
pub fn split_lines(s: &str) -> (r: Vec<String>)
    ensures
        r@.map_values(|t: String| t@) == lines_of(s@),
    decreases s@.len(),
{
    let n: usize = s.unicode_len();
    if n == 0 {
        let r: Vec<String> = Vec::new();
        proof {
            assert(r@.map_values(|t: String| t@) =~= lines_of(s@));
        }
        return r;
    }
    let mut i: usize = 0;
    while i < n && s.get_char(i) != '\n'
        invariant
            n == s@.len(),
            0 <= i <= n,
            first_nl(s@, 0) == first_nl(s@, i as int),
        decreases n - i,
    {
        i = i + 1;
    }
    proof {
        assert(first_nl(s@, 0) == i as int);
    }
    if i == n {
        let mut r: Vec<String> = Vec::new();
        r.push(String::from_str(s));
        proof {
            assert(r@.map_values(|t: String| t@) =~= lines_of(s@));
        }
        r
    } else {
        let line: &str;
        if i > 0 && s.get_char(i - 1) == '\r' {
            line = s.substring_char(0, i - 1);
            proof {
                assert(s@.take(i as int).last() == s@[i - 1]);
                assert(s@.take(i as int).drop_last() =~= s@.subrange(0, i - 1));
                assert(line@ =~= strip_cr(s@.take(i as int)));
            }
        } else {
            line = s.substring_char(0, i);
            proof {
                if i > 0 {
                    assert(s@.take(i as int).last() == s@[i - 1]);
                }
                assert(line@ =~= strip_cr(s@.take(i as int)));
            }
        }
        let rest = s.substring_char(i + 1, n);
        let mut tail = split_lines(rest);
        let mut r: Vec<String> = Vec::new();
        r.push(String::from_str(line));
        r.append(&mut tail);
        proof {
            assert(r@.map_values(|t: String| t@) =~= lines_of(s@));
        }
        r
    }
}

/// The block records of a sequence of lines, in line order, lines that parse
/// to nothing dropped.
pub open spec fn records_of_lines(ls: Seq<Seq<char>>) -> Seq<BlockData>
    decreases ls.len(),
{
    if ls.len() == 0 {
        Seq::empty()
    } else {
        records_of_lines(ls.drop_last()) + (if line_record(ls.last()) is Some {
            seq![line_record(ls.last())->0]
        } else {
            Seq::empty()
        })
    }
}

/// The block records of a whole document: its lines parsed in order.
pub open spec fn records_of(s: Seq<char>) -> Seq<BlockData> {
    records_of_lines(lines_of(s))
}

/// Parses a whole document: every line of the recognized shape yields one
/// block record, in document order; every other line is dropped silently.
pub fn parse_document(s: &str) -> (r: Vec<UnicodeBlock>)
    ensures
        r@.map_values(|b: UnicodeBlock| b@) == records_of(s@),
{
    let lines = split_lines(s);
    let mut out: Vec<UnicodeBlock> = Vec::new();
    let mut i: usize = 0;
    while i < lines.len()
        invariant
            lines@.map_values(|t: String| t@) == lines_of(s@),
            0 <= i <= lines@.len(),
            out@.map_values(|b: UnicodeBlock| b@) == records_of_lines(
                lines_of(s@).take(i as int),
            ),
        decreases lines@.len() - i,
    {
        let ghost prefix = lines_of(s@).take(i as int);
        let ghost next = lines_of(s@).take(i + 1);
        proof {
            assert(next.drop_last() =~= prefix);
            assert(next.last() == lines@.map_values(|t: String| t@)[i as int]);
        }
        match parse_line(lines[i].as_str()) {
            Some(blk) => {
                out.push(blk);
            },
            None => {
            },
        }
        proof {
            assert(out@.map_values(|b: UnicodeBlock| b@) =~= records_of_lines(next));
        }
        i = i + 1;
    }
    proof {
        assert(lines_of(s@).take(lines@.len() as int) =~= lines_of(s@));
    }
    out
}

} // verus!
