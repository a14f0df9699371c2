use vstd::prelude::*;

verus! {

/// The pieces of `s` between occurrences of `sep`, collecting the current
/// piece in `cur`.
pub open spec fn split_from(s: Seq<char>, sep: char, cur: Seq<char>) -> Seq<Seq<char>>
    decreases s.len(),
{
    if s.len() == 0 {
        seq![cur]
    } else if s[0] == sep {
        seq![cur] + split_from(s.drop_first(), sep, seq![])
    } else {
        split_from(s.drop_first(), sep, cur.push(s[0]))
    }
}

/// The pieces of `s` between occurrences of `sep` (what `str::split` yields
/// for a character pattern); there is always at least one piece.
pub open spec fn split_spec(s: Seq<char>, sep: char) -> Seq<Seq<char>> {
    split_from(s, sep, seq![])
}

/// The views of a vector of character vectors.
pub open spec fn pieces_view(pieces: Seq<Vec<char>>) -> Seq<Seq<char>> {
    pieces.map_values(|piece: Vec<char>| piece@)
}

/// Splits `s` at every occurrence of `sep`.
pub fn split_chars(s: &Vec<char>, sep: char) -> (res: Vec<Vec<char>>)
    ensures
        pieces_view(res@) == split_spec(s@, sep),
{
    let mut done: Vec<Vec<char>> = Vec::new();
    let mut cur: Vec<char> = Vec::new();
    let mut i: usize = 0;
    assert(s@.skip(0) =~= s@);
    while i < s.len()
        invariant
            i <= s@.len(),
            pieces_view(done@) + split_from(s@.skip(i as int), sep, cur@) == split_spec(s@, sep),
        decreases s@.len() - i,
    {
        let c = s[i];
        let ghost rest = s@.skip(i as int);
        assert(rest.drop_first() =~= s@.skip(i as int + 1));
        assert(rest[0] == c);
        if c == sep {
            let ghost old_done = done@;
            let ghost piece = cur@;
            done.push(cur);
            cur = Vec::new();
            assert(pieces_view(done@) =~= pieces_view(old_done) + seq![piece]);
            assert(pieces_view(old_done) + split_from(rest, sep, piece) =~= pieces_view(done@)
                + split_from(s@.skip(i as int + 1), sep, cur@));
        } else {
            cur.push(c);
        }
        i = i + 1;
    }
    let ghost old_done = done@;
    let ghost piece = cur@;
    done.push(cur);
    assert(pieces_view(done@) =~= pieces_view(old_done) + seq![piece]);
    assert(split_from(s@.skip(i as int), sep, piece) =~= seq![piece]);
    done
}

/// Whether two character vectors are equal.
pub fn chars_eq(a: &Vec<char>, b: &[char]) -> (res: bool)
    ensures
        res == (a@ == b@),
{
    if a.len() != b.len() {
        return false;
    }
    let mut i: usize = 0;
    while i < a.len()
        invariant
            a@.len() == b@.len(),
            i <= a@.len(),
            forall|k: int| 0 <= k < i ==> a@[k] == b@[k],
        decreases a@.len() - i,
    {
        if a[i] != b[i] {
            return false;
        }
        i = i + 1;
    }
    assert(a@ =~= b@);
    true
}

/// Whether `pat` occurs in `s` at position `i`.
pub open spec fn occurs_at(s: Seq<char>, pat: Seq<char>, i: int) -> bool {
    0 <= i && i + pat.len() <= s.len() && s.subrange(i, i + pat.len()) == pat
}

/// Whether `pat` occurs anywhere in `s`.
pub open spec fn contains_spec(s: Seq<char>, pat: Seq<char>) -> bool {
    exists|i: int| occurs_at(s, pat, i)
}

/// The position of the first occurrence of `pat` in `s`, if any.
#[verifier::opaque]
pub open spec fn first_occurrence(s: Seq<char>, pat: Seq<char>) -> Option<int> {
    if contains_spec(s, pat) {
        Some(choose|i: int| occurs_at(s, pat, i) && forall|j: int| 0 <= j < i ==> !occurs_at(s, pat, j))
    } else {
        None
    }
}

fn occurs_at_exec(s: &Vec<char>, pat: &Vec<char>, i: usize) -> (res: bool)
    requires
        i <= s@.len(),
    ensures
        res == occurs_at(s@, pat@, i as int),
{
    if pat.len() > s.len() - i {
        return false;
    }
    let mut k: usize = 0;
    while k < pat.len()
        invariant
            i + pat.len() <= s.len(),
            k <= pat@.len(),
            forall|m: int| 0 <= m < k ==> s@[i + m] == pat@[m],
        decreases pat@.len() - k,
    {
        if s[i + k] != pat[k] {
            assert(s@.subrange(i as int, i + pat@.len())[k as int] != pat@[k as int]);
            return false;
        }
        k = k + 1;
    }
    assert(s@.subrange(i as int, i + pat@.len()) =~= pat@);
    true
}

/// The position of the first occurrence of `pat` in `s`.
pub fn find_chars(s: &Vec<char>, pat: &Vec<char>) -> (res: Option<usize>)
    ensures
        match res {
            Some(i) => first_occurrence(s@, pat@) == Some(i as int) && occurs_at(s@, pat@, i as int),
            None => first_occurrence(s@, pat@) is None,
        },
        res is Some <==> contains_spec(s@, pat@),
{
    let mut i: usize = 0;
    while i < s.len()
        invariant
            i <= s@.len(),
            forall|j: int| 0 <= j < i ==> !occurs_at(s@, pat@, j),
        decreases s@.len() - i,
    {
        if occurs_at_exec(s, pat, i) {
            proof {
                lemma_first_occurrence_at(s@, pat@, i as int);
            }
            return Some(i);
        }
        i = i + 1;
    }
    if occurs_at_exec(s, pat, i) {
        proof {
            lemma_first_occurrence_at(s@, pat@, i as int);
        }
        return Some(i);
    }
    proof {
        reveal(first_occurrence);
        if contains_spec(s@, pat@) {
            let w = choose|w: int| occurs_at(s@, pat@, w);
            assert(w <= i);
        }
    }
    None
}

proof fn lemma_first_occurrence_at(s: Seq<char>, pat: Seq<char>, i: int)
    requires
        occurs_at(s, pat, i),
        forall|j: int| 0 <= j < i ==> !occurs_at(s, pat, j),
    ensures
        first_occurrence(s, pat) == Some(i),
{
    reveal(first_occurrence);
    let w = choose|w: int| occurs_at(s, pat, w) && forall|j: int| 0 <= j < w ==> !occurs_at(s, pat, j);
    assert(occurs_at(s, pat, i) && forall|j: int| 0 <= j < i ==> !occurs_at(s, pat, j));
    if w < i {
        assert(!occurs_at(s, pat, w));
    } else if w > i {
        assert(!occurs_at(s, pat, i));
    }
}

/// Whether `s` begins with `pat`.
pub fn starts_with_chars(s: &Vec<char>, pat: &Vec<char>) -> (res: bool)
    ensures
        res == occurs_at(s@, pat@, 0),
{
    occurs_at_exec(s, pat, 0)
}

/// Splitting text joined at a separator splits each side on its own.
pub proof fn lemma_split_concat(s: Seq<char>, t: Seq<char>, sep: char, cur: Seq<char>)
    ensures
        split_from(s + seq![sep] + t, sep, cur) == split_from(s, sep, cur) + split_from(t, sep, seq![]),
    decreases s.len(),
{
    let whole = s + seq![sep] + t;
    if s.len() == 0 {
        assert(whole.drop_first() =~= t);
        assert(split_from(whole, sep, cur) =~= seq![cur] + split_from(t, sep, seq![]));
    } else {
        assert(whole.drop_first() =~= s.drop_first() + seq![sep] + t);
        assert(whole[0] == s[0]);
        if s[0] == sep {
            lemma_split_concat(s.drop_first(), t, sep, seq![]);
            assert(split_from(whole, sep, cur) =~= seq![cur] + split_from(s.drop_first(), sep, seq![]) + split_from(
                t,
                sep,
                seq![],
            ));
        } else {
            lemma_split_concat(s.drop_first(), t, sep, cur.push(s[0]));
        }
    }
}

/// Text without the separator is a single piece.
pub proof fn lemma_split_single(s: Seq<char>, sep: char, cur: Seq<char>)
    requires
        !s.contains(sep),
    ensures
        split_from(s, sep, cur) == seq![cur + s],
    decreases s.len(),
{
    if s.len() == 0 {
        assert(cur + s =~= cur);
    } else {
        assert(s[0] != sep) by {
            assert(s.contains(s[0]));
        }
        assert(!s.drop_first().contains(sep)) by {
            if s.drop_first().contains(sep) {
                let k = choose|k: int| 0 <= k < s.drop_first().len() && s.drop_first()[k] == sep;
                assert(s[k + 1] == sep);
            }
        }
        lemma_split_single(s.drop_first(), sep, cur.push(s[0]));
        assert(cur.push(s[0]) + s.drop_first() =~= cur + s);
    }
}

/// No piece holds the separator.
pub proof fn lemma_split_pieces_free(s: Seq<char>, sep: char, cur: Seq<char>)
    requires
        !cur.contains(sep),
    ensures
        forall|i: int| 0 <= i < split_from(s, sep, cur).len() ==> !(#[trigger] split_from(s, sep, cur)[i]).contains(sep),
    decreases s.len(),
{
    if s.len() == 0 {
        assert(split_from(s, sep, cur) =~= seq![cur]);
        assert(split_from(s, sep, cur)[0] == cur);
    } else {
        if s[0] == sep {
            lemma_split_pieces_free(s.drop_first(), sep, seq![]);
            let rest = split_from(s.drop_first(), sep, seq![]);
            assert forall|i: int| 0 <= i < split_from(s, sep, cur).len() implies !(#[trigger] split_from(
                s,
                sep,
                cur,
            )[i]).contains(sep) by {
                if i > 0 {
                    assert(split_from(s, sep, cur)[i] == rest[i - 1]);
                } else {
                    assert(split_from(s, sep, cur)[0] == cur);
                }
            }
        } else {
            assert(!cur.push(s[0]).contains(sep)) by {
                if cur.push(s[0]).contains(sep) {
                    let k = choose|k: int| 0 <= k < cur.push(s[0]).len() && cur.push(s[0])[k] == sep;
                    if k < cur.len() {
                        assert(cur[k] == sep);
                    }
                }
            }
            lemma_split_pieces_free(s.drop_first(), sep, cur.push(s[0]));
            assert(split_from(s, sep, cur) == split_from(s.drop_first(), sep, cur.push(s[0])));
        }
    }
}

/// Splitting always yields at least one piece.
pub proof fn lemma_split_nonempty(s: Seq<char>, sep: char, cur: Seq<char>)
    ensures
        split_from(s, sep, cur).len() >= 1,
    decreases s.len(),
{
    if s.len() > 0 {
        if s[0] == sep {
            lemma_split_nonempty(s.drop_first(), sep, seq![]);
        } else {
            lemma_split_nonempty(s.drop_first(), sep, cur.push(s[0]));
        }
    }
}

} // verus!
