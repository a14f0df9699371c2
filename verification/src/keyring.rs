use vstd::prelude::*;

use crate::scan::{chars_eq, pieces_view, split_chars, split_spec};
use crate::text::{chars_of, string_from_chars, strings_view};

verus! {

/// A line of `str::lines` output: the piece before a `'\n'`, without a
/// `'\r'` that ended it.
pub open spec fn strip_cr(line: Seq<char>) -> Seq<char> {
    if line.len() > 0 && line.last() == '\r' {
        line.drop_last()
    } else {
        line
    }
}

/// The lines of `s` as `str::lines` yields them: the text between line
/// feeds, a carriage return before a line feed removed, and no empty line
/// after a final line feed.
pub open spec fn lines_spec(s: Seq<char>) -> Seq<Seq<char>> {
    let parts = split_spec(s, '\n');
    let n = parts.len() as int;
    let ended = Seq::new((n - 1) as nat, |k: int| strip_cr(parts[k]));
    if parts[n - 1].len() == 0 {
        ended
    } else {
        ended.push(parts[n - 1])
    }
}

/// The fingerprint a `gpg --with-colons` line carries: the tenth field of an
/// `fpr` record, when it is not empty.
pub open spec fn line_fingerprint(line: Seq<char>) -> Option<Seq<char>> {
    let fields = split_spec(line, ':');
    if fields.len() > 9 && fields[0] == "fpr"@ && fields[9].len() > 0 {
        Some(fields[9])
    } else {
        None
    }
}

/// The fingerprint of the first line, from line `from` on, that carries one.
pub open spec fn first_fingerprint_from(lines: Seq<Seq<char>>, from: int) -> Option<Seq<char>>
    decreases lines.len() - from,
{
    if from < 0 || from >= lines.len() {
        None
    } else {
        match line_fingerprint(lines[from]) {
            Some(f) => Some(f),
            None => first_fingerprint_from(lines, from + 1),
        }
    }
}

/// The fingerprint of the first line of a `gpg --with-colons` listing that
/// carries one.
pub open spec fn first_fingerprint(output: Seq<char>) -> Option<Seq<char>> {
    first_fingerprint_from(lines_spec(output), 0)
}

fn strip_cr_exec(line: &Vec<char>) -> (res: Vec<char>)
    ensures
        res@ == strip_cr(line@),
{
    let n = line.len();
    let keep = if n > 0 && line[n - 1] == '\r' {
        n - 1
    } else {
        n
    };
    let mut out: Vec<char> = Vec::new();
    let mut i: usize = 0;
    while i < keep
        invariant
            keep <= line@.len(),
            i <= keep,
            out@ == line@.take(i as int),
        decreases keep - i,
    {
        out.push(line[i]);
        assert(out@ =~= line@.take(i as int + 1));
        i = i + 1;
    }
    assert(out@ =~= strip_cr(line@));
    out
}

fn line_fingerprint_exec(line: &Vec<char>) -> (res: Option<Vec<char>>)
    ensures
        match res {
            Some(f) => line_fingerprint(line@) == Some(f@),
            None => line_fingerprint(line@) is None,
        },
{
    let mut fields = split_chars(line, ':');
    proof {
        reveal_strlit("fpr");
    }
    if fields.len() <= 9 {
        return None;
    }
    let fpr: [char; 3] = ['f', 'p', 'r'];
    let is_fpr = chars_eq(&fields[0], &fpr);
    proof {
        assert(fields@[0]@ == pieces_view(fields@)[0]);
        assert(fpr@ =~= "fpr"@);
    }
    if !is_fpr {
        return None;
    }
    assert(fields@[9]@ == pieces_view(fields@)[9]);
    if fields[9].len() == 0 {
        return None;
    }
    let ghost tenth = fields@[9];
    let fingerprint = fields.remove(9);
    assert(fingerprint == tenth);
    Some(fingerprint)
}

/// The fingerprint of the first secret key in a `gpg --with-colons
/// --fingerprint --list-secret-keys` listing.
pub fn parse_first_fingerprint(output: &str) -> (res: Option<String>)
    ensures
        match res {
            Some(f) => first_fingerprint(output@) == Some(f@),
            None => first_fingerprint(output@) is None,
        },
{
    let chars = chars_of(output);
    let parts = split_chars(&chars, '\n');
    let ghost pv = pieces_view(parts@);
    let ghost lines = lines_spec(output@);
    let n = parts.len();
    assert(pv.len() == n);
    assert(n >= 1) by {
        crate::scan::lemma_split_nonempty(output@, '\n', seq![]);
    }
    let mut k: usize = 0;
    while k < n
        invariant
            n == parts@.len(),
            n >= 1,
            pv == pieces_view(parts@),
            pv == split_spec(output@, '\n'),
            lines == lines_spec(output@),
            k <= n,
            forall|j: int| 0 <= j < k && j < lines.len() ==> line_fingerprint(#[trigger] lines[j]) is None,
        decreases n - k,
    {
        assert(parts@[k as int]@ == pv[k as int]);
        if k + 1 < n {
            let line = strip_cr_exec(&parts[k]);
            assert(lines[k as int] == line@);
            if let Some(f) = line_fingerprint_exec(&line) {
                proof {
                    lemma_first_fingerprint_at(lines, k as int);
                }
                return Some(string_from_chars(&f));
            }
        } else if parts[k].len() > 0 {
            assert(lines[k as int] == parts@[k as int]@);
            if let Some(f) = line_fingerprint_exec(&parts[k]) {
                proof {
                    lemma_first_fingerprint_at(lines, k as int);
                }
                return Some(string_from_chars(&f));
            }
        }
        k = k + 1;
    }
    proof {
        lemma_no_fingerprint(lines, 0);
    }
    None
}

proof fn lemma_first_fingerprint_at(lines: Seq<Seq<char>>, k: int)
    requires
        0 <= k < lines.len(),
        line_fingerprint(lines[k]) is Some,
        forall|j: int| 0 <= j < k ==> line_fingerprint(#[trigger] lines[j]) is None,
    ensures
        first_fingerprint_from(lines, 0) == line_fingerprint(lines[k]),
{
    lemma_first_fingerprint_from(lines, 0, k);
}

proof fn lemma_first_fingerprint_from(lines: Seq<Seq<char>>, from: int, k: int)
    requires
        0 <= from <= k < lines.len(),
        line_fingerprint(lines[k]) is Some,
        forall|j: int| 0 <= j < k ==> line_fingerprint(#[trigger] lines[j]) is None,
    ensures
        first_fingerprint_from(lines, from) == line_fingerprint(lines[k]),
    decreases k - from,
{
    if from < k {
        lemma_first_fingerprint_from(lines, from + 1, k);
    }
}

proof fn lemma_no_fingerprint(lines: Seq<Seq<char>>, from: int)
    requires
        0 <= from,
        forall|j: int| 0 <= j < lines.len() ==> line_fingerprint(#[trigger] lines[j]) is None,
    ensures
        first_fingerprint_from(lines, from) is None,
    decreases lines.len() - from,
{
    if from < lines.len() {
        lemma_no_fingerprint(lines, from + 1);
    }
}

/// The lines of `s`, as `str::lines` yields them.
pub fn lines_of(s: &str) -> (res: Vec<String>)
    ensures
        strings_view(res@) == lines_spec(s@),
{
    let chars = chars_of(s);
    let parts = split_chars(&chars, '\n');
    let ghost pv = pieces_view(parts@);
    let ghost lines = lines_spec(s@);
    let n = parts.len();
    assert(n >= 1) by {
        crate::scan::lemma_split_nonempty(s@, '\n', seq![]);
    }
    let mut out: Vec<String> = Vec::new();
    let mut k: usize = 0;
    while k + 1 < n
        invariant
            n == parts@.len(),
            n >= 1,
            pv == pieces_view(parts@),
            pv == split_spec(s@, '\n'),
            lines == lines_spec(s@),
            k + 1 <= n,
            strings_view(out@) == lines.take(k as int),
        decreases n - k,
    {
        assert(parts@[k as int]@ == pv[k as int]);
        let line = strip_cr_exec(&parts[k]);
        assert(lines[k as int] == line@);
        let ghost before = out@;
        out.push(string_from_chars(&line));
        assert(strings_view(out@) =~= strings_view(before).push(line@));
        assert(strings_view(out@) =~= lines.take(k as int + 1));
        k = k + 1;
    }
    assert(parts@[k as int]@ == pv[k as int]);
    let ghost before = out@;
    if parts[k].len() > 0 {
        out.push(string_from_chars(&parts[k]));
        assert(strings_view(out@) =~= strings_view(before).push(pv[k as int]));
        assert(lines.len() == n);
        assert(strings_view(out@) =~= lines);
    } else {
        assert(lines.len() == n - 1);
        assert(strings_view(out@) =~= lines);
    }
    out
}

} // verus!
