//! The game's language tables: tab-separated text files, one row per line.

use vstd::prelude::*;
use crate::text::{utf8_strict, chars_of, string_from_chars};

verus! {

/// Why a table cannot be read.
#[derive(Copy, Clone, PartialEq, Eq, Structural, Debug)]
pub enum TsvError {
    /// The file is not valid UTF-8.
    InvalidData,
}

/// Index of the first `c` in `s`, or -1.
pub open spec fn index_of_char(s: Seq<char>, c: char) -> int
    decreases s.len(),
{
    if s.len() == 0 {
        -1
    } else if s[0] == c {
        0
    } else {
        let r = index_of_char(s.drop_first(), c);
        if r < 0 { -1 } else { r + 1 }
    }
}

pub proof fn lemma_index_of_char(s: Seq<char>, c: char)
    ensures
        -1 <= index_of_char(s, c) < s.len(),
        index_of_char(s, c) >= 0 ==> s[index_of_char(s, c)] == c,
        forall|j: int| 0 <= j < s.len() && (index_of_char(s, c) < 0 || j < index_of_char(s, c)) ==> s[j] != c,
    decreases s.len(),
{
    if s.len() > 0 && s[0] != c {
        lemma_index_of_char(s.drop_first(), c);
        assert forall|j: int| 0 <= j < s.len() && (index_of_char(s, c) < 0 || j < index_of_char(s, c)) implies s[j] != c by {
            if j > 0 {
                assert(s[j] == s.drop_first()[j - 1]);
            }
        }
    }
}

/// The pieces of `s` between its `sep` characters (`s.split(sep)`).
pub open spec fn split_on(s: Seq<char>, sep: char) -> Seq<Seq<char>>
    decreases s.len(),
{
    let i = index_of_char(s, sep);
    if i < 0 {
        seq![s]
    } else {
        proof {
            lemma_index_of_char(s, sep);
        }
        seq![s.take(i)] + split_on(s.skip(i + 1), sep)
    }
}

/// A line without its trailing carriage return.
pub open spec fn strip_cr(l: Seq<char>) -> Seq<char> {
    if l.len() > 0 && l.last() == '\r' { l.drop_last() } else { l }
}

/// The lines of a text as `BufRead::lines` yields them: split after each
/// line feed, which is dropped with a carriage return before it; a last
/// line without a line feed is kept as it is; no line after a final line
/// feed.
pub open spec fn lines_of(s: Seq<char>) -> Seq<Seq<char>>
    decreases s.len(),
{
    if s.len() == 0 {
        Seq::empty()
    } else {
        let i = index_of_char(s, '\n');
        if i < 0 {
            seq![s]
        } else {
            proof {
                lemma_index_of_char(s, '\n');
            }
            seq![strip_cr(s.take(i))] + lines_of(s.skip(i + 1))
        }
    }
}

/// The rows of a text: each line split at its tabs.
pub open spec fn rows_of(s: Seq<char>) -> Seq<Seq<Seq<char>>> {
    lines_of(s).map_values(|l: Seq<char>| split_on(l, '\t'))
}

/// The rows as texts.
pub open spec fn rows_view(r: Seq<Vec<String>>) -> Seq<Seq<Seq<char>>> {
    Seq::new(r.len(), |i: int| Seq::new(r[i]@.len(), |j: int| r[i]@[j]@))
}

fn find_char(s: &[char], from: usize, c: char) -> (r: usize)
    requires
        from <= s@.len(),
    ensures
        from <= r <= s@.len(),
        r < s@.len() ==> index_of_char(s@.skip(from as int), c) == r - from,
        r == s@.len() ==> index_of_char(s@.skip(from as int), c) == -1,
{
    let mut i = from;
    while i < s.len() && s[i] != c
        invariant
            from <= i <= s@.len(),
            forall|j: int| from <= j < i ==> s@[j] != c,
        decreases s@.len() - i,
    {
        i = i + 1;
    }
    proof {
        let t = s@.skip(from as int);
        lemma_index_of_char(t, c);
        let k = index_of_char(t, c);
        if k >= 0 && k < i - from {
            assert(t[k] == s@[from + k]);
        }
        if i < s@.len() && (k < 0 || k > i - from) {
            assert(t[i - from] == s@[i as int]);
        }
    }
    i
}

/// The pieces of `s[from..to]` between its tabs.
fn split_tabs(s: &[char], from: usize, to: usize) -> (r: Vec<String>)
    requires
        from <= to <= s@.len(),
    ensures
        Seq::new(r@.len(), |j: int| r@[j]@) == split_on(s@.subrange(from as int, to as int), '\t'),
{
    let line = &s[from..to];
    let mut out: Vec<String> = Vec::new();
    let mut start: usize = 0;
    assert(line@.skip(0) =~= line@);
    assert(Seq::new(out@.len(), |j: int| out@[j]@) + split_on(line@, '\t') =~= split_on(line@, '\t'));
    assert(line@ =~= s@.subrange(from as int, to as int));
    loop
        invariant
            from <= to <= s@.len(),
            line@ == s@.subrange(from as int, to as int),
            start <= line@.len(),
            Seq::new(out@.len(), |j: int| out@[j]@) + split_on(line@.skip(start as int), '\t') == split_on(line@, '\t'),
        decreases line@.len() - start,
    {
        let ghost rest = line@.skip(start as int);
        let i = find_char(line, start, '\t');
        let piece = string_from_chars(&line[start..i]);
        let ghost before = Seq::new(out@.len(), |j: int| out@[j]@);
        out.push(piece);
        proof {
            assert(Seq::new(out@.len(), |j: int| out@[j]@) =~= before.push(piece@));
        }
        if i == line.len() {
            proof {
                assert(piece@ =~= rest);
                assert(before + seq![rest] =~= before.push(piece@));
            }
            return out;
        }
        proof {
            assert(piece@ =~= rest.take(i - start));
            assert(rest.skip(i - start + 1) =~= line@.skip(i + 1));
            assert(before + (seq![piece@] + split_on(line@.skip(i + 1), '\t')) =~= before.push(piece@) + split_on(line@.skip(i + 1), '\t'));
        }
        start = i + 1;
    }
}

/// The rows of the tab-separated text `bytes`: each line (as
/// `BufRead::lines` yields it) split at its tabs; fails where the text is
/// not valid UTF-8.
pub fn parse_tsv_bytes(bytes: Vec<u8>) -> (r: Result<Vec<Vec<String>>, TsvError>)
    ensures
        vstd::utf8::valid_utf8(bytes@) <==> r is Ok,
        r matches Ok(rows) ==> rows_view(rows@) == rows_of(vstd::utf8::decode_utf8(bytes@)),
{
    let text = match utf8_strict(bytes) {
        Ok(t) => t,
        Err(_) => {
            return Err(TsvError::InvalidData);
        },
    };
    let s = chars_of(text.as_str());
    let n = s.len();
    let mut rows: Vec<Vec<String>> = Vec::new();
    let mut start: usize = 0;
    proof {
        assert(s@.skip(0) =~= s@);
        assert(rows_view(rows@) + rows_of(s@) =~= rows_of(s@));
    }
    while start < n
        invariant
            n == s@.len(),
            start <= n,
            rows_view(rows@) + rows_of(s@.skip(start as int)) == rows_of(s@),
        decreases n - start,
    {
        let ghost rest = s@.skip(start as int);
        let i = find_char(s.as_slice(), start, '\n');
        let end = if i < n && i > start && s[i - 1] == '\r' { i - 1 } else { i };
        let row = split_tabs(s.as_slice(), start, end);
        let ghost before = rows_view(rows@);
        let ghost rv = Seq::new(row@.len(), |j: int| row@[j]@);
        rows.push(row);
        proof {
            assert(rows_view(rows@) =~= before.push(rv));
            if i == n {
                assert(s@.subrange(start as int, end as int) =~= rest);
                assert(lines_of(rest) == seq![rest]);
                assert(rows_of(rest) =~= seq![split_on(rest, '\t')]);
                assert(before + rows_of(rest) =~= rows_view(rows@));
                assert(s@.skip(n as int) =~= Seq::<char>::empty());
                assert(rows_of(s@.skip(n as int)) =~= Seq::<Seq<Seq<char>>>::empty());
                assert(rows_view(rows@) + rows_of(s@.skip(n as int)) =~= rows_view(rows@));
            } else {
                let line = rest.take(i - start);
                assert(s@.subrange(start as int, end as int) =~= strip_cr(line));
                assert(rest.skip(i - start + 1) =~= s@.skip(i + 1));
                assert(lines_of(rest) == seq![strip_cr(line)] + lines_of(s@.skip(i + 1)));
                assert(rows_of(rest) =~= seq![split_on(strip_cr(line), '\t')] + rows_of(s@.skip(i + 1)));
                assert(before + rows_of(rest) =~= rows_view(rows@) + rows_of(s@.skip(i + 1)));
            }
        }
        start = if i < n { i + 1 } else { n };
    }
    proof {
        assert(s@.skip(start as int) =~= Seq::<char>::empty());
        assert(rows_of(s@.skip(start as int)) =~= Seq::<Seq<Seq<char>>>::empty());
        assert(rows_view(rows@) + rows_of(s@.skip(start as int)) =~= rows_view(rows@));
    }
    Ok(rows)
}

/// The two language tables, `ETC.tsv` and `ITEM.tsv`, read from their
/// bytes; fails where either is not valid UTF-8 (the first one first).
pub fn parse_language_data(etc: Vec<u8>, item: Vec<u8>) -> (r: Result<(Vec<Vec<String>>, Vec<Vec<String>>), TsvError>)
    ensures
        (vstd::utf8::valid_utf8(etc@) && vstd::utf8::valid_utf8(item@)) <==> r is Ok,
        r matches Ok((e, i)) ==> rows_view(e@) == rows_of(vstd::utf8::decode_utf8(etc@))
            && rows_view(i@) == rows_of(vstd::utf8::decode_utf8(item@)),
{
    let etc_data = parse_tsv_bytes(etc)?;
    let item_data = parse_tsv_bytes(item)?;
    Ok((etc_data, item_data))
}

} // verus!
