use vstd::prelude::*;

use crate::scan::{find_chars, first_occurrence, occurs_at, starts_with_chars};
use crate::text::{decimal_text, 
    char_is_whitespace, chars_of, is_unicode_whitespace, str_trim, string_from_chars,
    to_owned_string, trailing_whitespace, trim_spec,
};

verus! {

/// Number of non-whitespace characters at the back of `s`.
pub open spec fn trailing_non_whitespace(s: Seq<char>) -> nat
    decreases s.len(),
{
    if s.len() == 0 {
        0
    } else if !is_unicode_whitespace(s.last()) {
        1 + trailing_non_whitespace(s.drop_last())
    } else {
        0
    }
}

/// The last whitespace-separated word of `s`, if any (what
/// `split_whitespace().last()` yields).
#[verifier::opaque]
pub open spec fn last_word(s: Seq<char>) -> Option<Seq<char>> {
    let t = s.take(s.len() - trailing_whitespace(s));
    if t.len() == 0 {
        None
    } else {
        Some(t.skip(t.len() - trailing_non_whitespace(t)))
    }
}

pub open spec fn is_ascii_digit_spec(c: char) -> bool {
    '0' <= c && c <= '9'
}

/// The ASCII digits of `s`, in order.
pub open spec fn ascii_digits(s: Seq<char>) -> Seq<char>
    decreases s.len(),
{
    if s.len() == 0 {
        seq![]
    } else if is_ascii_digit_spec(s.last()) {
        ascii_digits(s.drop_last()).push(s.last())
    } else {
        ascii_digits(s.drop_last())
    }
}

/// The number a string of decimal digits denotes.
pub open spec fn decimal_value(digits: Seq<char>) -> nat
    decreases digits.len(),
{
    if digits.len() == 0 {
        0
    } else {
        decimal_value(digits.drop_last()) * 10 + ((digits.last() as nat) - ('0' as nat)) as nat
    }
}

/// The percentage a progress segment reports: the digits of the last word
/// before the first '%', read as a `u8` and capped at 100.
pub open spec fn progress_percent(segment: Seq<char>) -> Option<u8> {
    match first_occurrence(segment, seq!['%']) {
        None => None,
        Some(at) => match last_word(segment.take(at)) {
            None => None,
            Some(word) => word_percent(word),
        },
    }
}

/// The marker and stage name of progress phase `i`.
pub open spec fn phase_marker(i: int) -> Seq<char> {
    if i == 0 {
        "Receiving objects:"@
    } else if i == 1 {
        "Resolving deltas:"@
    } else {
        "Compressing objects:"@
    }
}

pub open spec fn phase_stage(i: int) -> Seq<char> {
    if i == 0 {
        "Receiving objects"@
    } else if i == 1 {
        "Resolving deltas"@
    } else {
        "Compressing objects"@
    }
}

/// The message shown for a phase at a percentage.
pub open spec fn phase_message(i: int, percent: u8) -> Seq<char> {
    phase_stage(i) + seq!['\u{2026}', ' '] + decimal_text(percent as nat) + seq!['%']
}

/// The progress a line reports through marker `i`: present, and followed by
/// text that carries a percentage.
pub open spec fn phase_here(line: Seq<char>, i: int) -> Option<(u8, Seq<char>)> {
    match first_occurrence(line, phase_marker(i)) {
        Some(at) => match progress_percent(line.skip(at + phase_marker(i).len())) {
            Some(p) => Some((p, phase_message(i, p))),
            None => None,
        },
        None => None,
    }
}

/// The progress a line reports through phase markers `from` and later: the
/// first marker present whose following text carries a percentage.
pub open spec fn phase_progress(line: Seq<char>, from: int) -> Option<(u8, Seq<char>)>
    decreases 3 - from,
{
    if from < 0 || from >= 3 {
        None
    } else {
        match phase_here(line, from) {
            Some(found) => Some(found),
            None => phase_progress(line, from + 1),
        }
    }
}

/// The progress a `git clone --progress` stderr line reports, if any.
pub open spec fn clone_progress(line: Seq<char>) -> Option<(u8, Seq<char>)> {
    let t = trim_spec(line);
    if occurs_at(t, "Cloning into"@, 0) {
        Some((2u8, "Starting clone\u{2026}"@))
    } else if crate::scan::contains_spec(t, "Checking connectivity"@) {
        Some((99u8, "Checking repository connectivity\u{2026}"@))
    } else {
        phase_progress(t, 0)
    }
}

fn skip_chars(s: &Vec<char>, from: usize) -> (res: Vec<char>)
    requires
        from <= s@.len(),
    ensures
        res@ == s@.skip(from as int),
{
    let mut out: Vec<char> = Vec::new();
    let mut i: usize = from;
    while i < s.len()
        invariant
            from <= i <= s@.len(),
            out@ == s@.subrange(from as int, i as int),
        decreases s@.len() - i,
    {
        out.push(s[i]);
        assert(out@ =~= s@.subrange(from as int, i + 1));
        i = i + 1;
    }
    assert(out@ =~= s@.skip(from as int));
    out
}

fn take_chars(s: &Vec<char>, n: usize) -> (res: Vec<char>)
    requires
        n <= s@.len(),
    ensures
        res@ == s@.take(n as int),
{
    let mut out: Vec<char> = Vec::new();
    let mut i: usize = 0;
    while i < n
        invariant
            n <= s@.len(),
            i <= n,
            out@ == s@.take(i as int),
        decreases n - i,
    {
        out.push(s[i]);
        assert(out@ =~= s@.take(i as int + 1));
        i = i + 1;
    }
    out
}

proof fn lemma_trailing_whitespace_bound(s: Seq<char>)
    ensures
        trailing_whitespace(s) <= s.len(),
    decreases s.len(),
{
    if s.len() > 0 && is_unicode_whitespace(s.last()) {
        lemma_trailing_whitespace_bound(s.drop_last());
    }
}

proof fn lemma_trailing_non_whitespace_bound(s: Seq<char>)
    ensures
        trailing_non_whitespace(s) <= s.len(),
    decreases s.len(),
{
    if s.len() > 0 && !is_unicode_whitespace(s.last()) {
        lemma_trailing_non_whitespace_bound(s.drop_last());
    }
}

/// Length of the text before the trailing whitespace of `s`.
fn trailing_whitespace_start(s: &Vec<char>) -> (res: usize)
    ensures
        res == s@.len() - trailing_whitespace(s@),
{
    let mut end = s.len();
    proof {
        lemma_trailing_whitespace_bound(s@);
        assert(s@.take(end as int) =~= s@);
    }
    while end > 0 && char_is_whitespace(s[end - 1])
        invariant
            end <= s@.len(),
            trailing_whitespace(s@) == (s@.len() - end) + trailing_whitespace(s@.take(end as int)),
        decreases end,
    {
        proof {
            let t = s@.take(end as int);
            assert(t.drop_last() =~= s@.take(end - 1));
        }
        end = end - 1;
    }
    proof {
        let t = s@.take(end as int);
        if end > 0 {
            assert(t.last() == s@[end - 1]);
        }
    }
    end
}

/// Length of the text before the trailing non-whitespace run of `s`.
fn trailing_word_start(s: &Vec<char>) -> (res: usize)
    ensures
        res == s@.len() - trailing_non_whitespace(s@),
{
    let mut end = s.len();
    proof {
        lemma_trailing_non_whitespace_bound(s@);
        assert(s@.take(end as int) =~= s@);
    }
    while end > 0 && !char_is_whitespace(s[end - 1])
        invariant
            end <= s@.len(),
            trailing_non_whitespace(s@) == (s@.len() - end) + trailing_non_whitespace(
                s@.take(end as int),
            ),
        decreases end,
    {
        proof {
            let t = s@.take(end as int);
            assert(t.drop_last() =~= s@.take(end - 1));
        }
        end = end - 1;
    }
    proof {
        let t = s@.take(end as int);
        if end > 0 {
            assert(t.last() == s@[end - 1]);
        }
    }
    end
}

fn ascii_digits_exec(s: &Vec<char>) -> (res: Vec<char>)
    ensures
        res@ == ascii_digits(s@),
{
    let mut out: Vec<char> = Vec::new();
    let mut i: usize = 0;
    while i < s.len()
        invariant
            i <= s@.len(),
            out@ == ascii_digits(s@.take(i as int)),
        decreases s@.len() - i,
    {
        let c = s[i];
        proof {
            let t = s@.take(i + 1);
            assert(t.drop_last() =~= s@.take(i as int));
            assert(t.last() == c);
        }
        if '0' <= c && c <= '9' {
            out.push(c);
        }
        i = i + 1;
    }
    assert(s@.take(s@.len() as int) =~= s@);
    out
}

pub(crate) proof fn lemma_decimal_grows(digits: Seq<char>, i: int)
    requires
        0 <= i <= digits.len(),
        forall|k: int| 0 <= k < digits.len() ==> is_ascii_digit_spec(#[trigger] digits[k]),
    ensures
        decimal_value(digits.take(i)) <= decimal_value(digits),
    decreases digits.len() - i,
{
    if i < digits.len() {
        lemma_decimal_grows(digits, i + 1);
        let t = digits.take(i + 1);
        assert(t.drop_last() =~= digits.take(i));
    } else {
        assert(digits.take(i) =~= digits);
    }
}

proof fn lemma_ascii_digits_are_digits(s: Seq<char>)
    ensures
        forall|k: int| 0 <= k < ascii_digits(s).len() ==> is_ascii_digit_spec(#[trigger] ascii_digits(s)[k]),
    decreases s.len(),
{
    if s.len() > 0 {
        lemma_ascii_digits_are_digits(s.drop_last());
        let prev = ascii_digits(s.drop_last());
        if is_ascii_digit_spec(s.last()) {
            assert forall|k: int| 0 <= k < ascii_digits(s).len() implies is_ascii_digit_spec(
                #[trigger] ascii_digits(s)[k],
            ) by {
                if k < prev.len() {
                    assert(ascii_digits(s)[k] == prev[k]);
                }
            }
        }
    }
}

/// Reads a string of ASCII digits as a number, or `None` above 255.
fn digits_to_u8(digits: &Vec<char>) -> (res: Option<u8>)
    requires
        forall|k: int| 0 <= k < digits@.len() ==> is_ascii_digit_spec(#[trigger] digits@[k]),
    ensures
        match res {
            Some(v) => decimal_value(digits@) == v as nat,
            None => decimal_value(digits@) > 255,
        },
{
    let mut value: u32 = 0;
    let mut i: usize = 0;
    while i < digits.len()
        invariant
            i <= digits@.len(),
            forall|k: int| 0 <= k < digits@.len() ==> is_ascii_digit_spec(#[trigger] digits@[k]),
            value as nat == decimal_value(digits@.take(i as int)),
            value <= 255,
        decreases digits@.len() - i,
    {
        let c = digits[i];
        proof {
            let t = digits@.take(i + 1);
            assert(t.drop_last() =~= digits@.take(i as int));
            assert(t.last() == c);
        }
        let d = (c as u32) - ('0' as u32);
        let next = value * 10 + d;
        if next > 255 {
            proof {
                lemma_decimal_grows(digits@, i + 1);
            }
            return None;
        }
        value = next;
        i = i + 1;
    }
    assert(digits@.take(digits@.len() as int) =~= digits@);
    Some(value as u8)
}

fn last_word_chars(s: &Vec<char>) -> (res: Option<Vec<char>>)
    ensures
        match res {
            Some(w) => last_word(s@) == Some(w@),
            None => last_word(s@) is None,
        },
{
    proof {
        reveal(last_word);
    }
    let end = trailing_whitespace_start(s);
    let trimmed = take_chars(s, end);
    if trimmed.len() == 0 {
        return None;
    }
    let start = trailing_word_start(&trimmed);
    proof {
        lemma_trailing_non_whitespace_bound(trimmed@);
    }
    Some(skip_chars(&trimmed, start))
}

/// The number a word's digits denote, capped at 100, when they fit a `u8`.
#[verifier::opaque]
pub open spec fn word_percent(word: Seq<char>) -> Option<u8> {
    let digits = ascii_digits(word);
    if digits.len() == 0 || decimal_value(digits) > 255 {
        None
    } else if decimal_value(digits) > 100 {
        Some(100u8)
    } else {
        Some(decimal_value(digits) as u8)
    }
}

fn word_percent_chars(word: &Vec<char>) -> (res: Option<u8>)
    ensures
        res == word_percent(word@),
{
    proof {
        reveal(word_percent);
    }
    let digits = ascii_digits_exec(word);
    if digits.len() == 0 {
        return None;
    }
    proof {
        lemma_ascii_digits_are_digits(word@);
    }
    match digits_to_u8(&digits) {
        None => None,
        Some(value) => if value > 100 {
            Some(100)
        } else {
            Some(value)
        },
    }
}

/// The percentage reported in a progress segment.
fn progress_percent_chars(segment: &Vec<char>) -> (res: Option<u8>)
    ensures
        res == progress_percent(segment@),
{
    let percent = vec!['%'];
    assert(percent@ =~= seq!['%']);
    let Some(index) = find_chars(segment, &percent) else {
        return None;
    };
    let before = take_chars(segment, index);
    match last_word_chars(&before) {
        None => None,
        Some(word) => word_percent_chars(&word),
    }
}

/// The percentage a progress segment reports: the digits of the last word
/// before the first '%', read as a `u8` and capped at 100.
pub fn extract_progress_percent(segment: &str) -> (res: Option<u8>)
    ensures
        res == progress_percent(segment@),
{
    let chars = chars_of(segment);
    progress_percent_chars(&chars)
}

fn decimal_chars(n: u8) -> (res: Vec<char>)
    ensures
        res@ == decimal_text(n as nat),
{
    let mut out: Vec<char> = Vec::new();
    if n >= 100 {
        let h = n / 100;
        let t = (n / 10) % 10;
        let o = n % 10;
        out.push(((('0' as u8) + h) as char));
        out.push(((('0' as u8) + t) as char));
        out.push(((('0' as u8) + o) as char));
        proof {
            assert(decimal_text((n / 10) as nat) == decimal_text((n / 100) as nat).push(
                (('0' as nat) + (n / 10) % 10) as char,
            ));
        }
    } else if n >= 10 {
        let t = n / 10;
        let o = n % 10;
        out.push(((('0' as u8) + t) as char));
        out.push(((('0' as u8) + o) as char));
    } else {
        out.push(((('0' as u8) + n) as char));
    }
    proof {
        reveal_with_fuel(decimal_text, 3);
    }
    assert(out@ =~= decimal_text(n as nat));
    out
}

fn phase_marker_str(i: usize) -> (res: &'static str)
    requires
        i < 3,
    ensures
        res@ == phase_marker(i as int),
{
    if i == 0 {
        "Receiving objects:"
    } else if i == 1 {
        "Resolving deltas:"
    } else {
        "Compressing objects:"
    }
}

fn phase_stage_str(i: usize) -> (res: &'static str)
    requires
        i < 3,
    ensures
        res@ == phase_stage(i as int),
{
    if i == 0 {
        "Receiving objects"
    } else if i == 1 {
        "Resolving deltas"
    } else {
        "Compressing objects"
    }
}

fn phase_message_string(i: usize, percent: u8) -> (res: String)
    requires
        i < 3,
    ensures
        res@ == phase_message(i as int, percent),
{
    let mut text = chars_of(phase_stage_str(i));
    text.push('\u{2026}');
    text.push(' ');
    let digits = decimal_chars(percent);
    let mut k: usize = 0;
    let ghost base = text@;
    while k < digits.len()
        invariant
            k <= digits@.len(),
            text@ == base + digits@.take(k as int),
        decreases digits@.len() - k,
    {
        text.push(digits[k]);
        assert(text@ =~= base + digits@.take(k as int + 1));
        k = k + 1;
    }
    text.push('%');
    assert(text@ =~= phase_message(i as int, percent));
    string_from_chars(&text)
}

fn phase_attempt(line: &Vec<char>, i: usize) -> (res: Option<(u8, String)>)
    requires
        i < 3,
    ensures
        match res {
            Some((p, m)) => phase_here(line@, i as int) == Some((p, m@)),
            None => phase_here(line@, i as int) is None,
        },
{
    let marker = chars_of(phase_marker_str(i));
    match find_chars(line, &marker) {
        None => None,
        Some(at) => {
            let n = line.len();
            assert(at + marker@.len() <= n);
            let rest = skip_chars(line, at + marker.len());
            match progress_percent_chars(&rest) {
                Some(p) => Some((p, phase_message_string(i, p))),
                None => None,
            }
        },
    }
}

/// The progress a `git clone --progress` stderr line reports: a percentage
/// and a message, or `None` for lines that report no progress.
pub fn parse_git_clone_progress_line(line: &str) -> (res: Option<(u8, String)>)
    ensures
        match res {
            Some((p, m)) => clone_progress(line@) == Some((p, m@)),
            None => clone_progress(line@) is None,
        },
{
    let trimmed = chars_of(str_trim(line));
    let cloning = chars_of("Cloning into");
    if starts_with_chars(&trimmed, &cloning) {
        return Some((2, to_owned_string("Starting clone\u{2026}")));
    }
    let checking = chars_of("Checking connectivity");
    if find_chars(&trimmed, &checking).is_some() {
        return Some((99, to_owned_string("Checking repository connectivity\u{2026}")));
    }
    let mut i: usize = 0;
    while i < 3
        invariant
            i <= 3,
            trimmed@ == trim_spec(line@),
            !occurs_at(trimmed@, "Cloning into"@, 0),
            !crate::scan::contains_spec(trimmed@, "Checking connectivity"@),
            phase_progress(trimmed@, 0) == phase_progress(trimmed@, i as int),
        decreases 3 - i,
    {
        if let Some(found) = phase_attempt(&trimmed, i) {
            return Some(found);
        }
        i = i + 1;
    }
    None
}

} // verus!
