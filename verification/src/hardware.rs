use vstd::prelude::*;

use crate::keyring::{lines_of, lines_spec};
use crate::progress::{decimal_value, is_ascii_digit_spec, lemma_decimal_grows};
use crate::text::{chars_of, strings_view, char_is_whitespace, is_unicode_whitespace};

verus! {

/// Whether `line` starts with `prefix`.
pub open spec fn has_prefix(line: Seq<char>, prefix: Seq<char>) -> bool {
    prefix.len() <= line.len() && line.take(prefix.len() as int) == prefix
}

fn starts_with(line: &Vec<char>, prefix: &Vec<char>) -> (res: bool)
    ensures
        res == has_prefix(line@, prefix@),
{
    if prefix.len() > line.len() {
        return false;
    }
    let mut i: usize = 0;
    while i < prefix.len()
        invariant
            prefix@.len() <= line@.len(),
            i <= prefix@.len(),
            forall|k: int| 0 <= k < i ==> line@[k] == prefix@[k],
        decreases prefix@.len() - i,
    {
        if line[i] != prefix[i] {
            assert(line@.take(prefix@.len() as int)[i as int] != prefix@[i as int]);
            return false;
        }
        i = i + 1;
    }
    assert(line@.take(prefix@.len() as int) =~= prefix@);
    true
}

/// How many of the lines start with `processor`.
pub open spec fn processor_lines(lines: Seq<Seq<char>>) -> nat
    decreases lines.len(),
{
    if lines.len() == 0 {
        0
    } else {
        processor_lines(lines.drop_last()) + if has_prefix(lines.last(), "processor"@) {
            1nat
        } else {
            0nat
        }
    }
}

/// The CPU count `/proc/cpuinfo` lists: one `processor` line per CPU;
/// none when it lists none.
pub fn cpu_cores_from_cpuinfo(cpuinfo: &str) -> (res: Option<u64>)
    ensures
        processor_lines(lines_spec(cpuinfo@)) == 0 ==> res is None,
        processor_lines(lines_spec(cpuinfo@)) > 0 ==> res == Some(processor_lines(lines_spec(cpuinfo@)) as u64),
{
    let lines = lines_of(cpuinfo);
    let ghost lv = strings_view(lines@);
    let prefix = chars_of("processor");
    let mut count: u64 = 0;
    let mut i: usize = 0;
    while i < lines.len()
        invariant
            i <= lines@.len(),
            lv == strings_view(lines@),
            lv == lines_spec(cpuinfo@),
            prefix@ == "processor"@,
            count == processor_lines(lv.take(i as int)),
            count <= i,
        decreases lines@.len() - i,
    {
        let line = chars_of(lines[i].as_str());
        assert(lv.take(i as int + 1).drop_last() =~= lv.take(i as int));
        assert(lv.take(i as int + 1).last() == line@);
        if starts_with(&line, &prefix) {
            count = count + 1;
        }
        i = i + 1;
    }
    assert(lv.take(lines@.len() as int) =~= lv);
    if count > 0 {
        Some(count)
    } else {
        None
    }
}

/// A text without its leading `+`, if it has one.
pub open spec fn unsigned_part(text: Seq<char>) -> Seq<char> {
    if text.len() > 0 && text[0] == '+' {
        text.drop_first()
    } else {
        text
    }
}

/// Every character is an ASCII digit.
pub open spec fn all_digits(s: Seq<char>) -> bool {
    forall|k: int| 0 <= k < s.len() ==> is_ascii_digit_spec(#[trigger] s[k])
}

/// The number a `u64` text denotes, as `str::parse::<u64>` reads it: an
/// optional `+`, then at least one ASCII digit and nothing else, within
/// range.
pub open spec fn parse_u64_spec(text: Seq<char>) -> Option<u64> {
    let digits = unsigned_part(text);
    if digits.len() == 0 || !all_digits(digits) {
        None
    } else if decimal_value(digits) > u64::MAX {
        None
    } else {
        Some(decimal_value(digits) as u64)
    }
}

fn parse_u64(text: &Vec<char>) -> (res: Option<u64>)
    ensures
        res == parse_u64_spec(text@),
{
    let start: usize = if text.len() > 0 && text[0] == '+' {
        1
    } else {
        0
    };
    let ghost digits = text@.skip(start as int);
    assert(digits =~= unsigned_part(text@));
    if start == text.len() {
        return None;
    }
    let mut i: usize = start;
    while i < text.len()
        invariant
            start <= i <= text@.len(),
            start < text@.len(),
            digits == text@.skip(start as int),
            digits == unsigned_part(text@),
            forall|k: int| 0 <= k < i - start ==> is_ascii_digit_spec(#[trigger] digits[k]),
        decreases text@.len() - i,
    {
        if !('0' <= text[i] && text[i] <= '9') {
            assert(digits[i - start] == text@[i as int]);
            assert(!is_ascii_digit_spec(digits[i - start]));
            return None;
        }
        i = i + 1;
    }
    let mut value: u64 = 0;
    let mut j: usize = start;
    while j < text.len()
        invariant
            start <= j <= text@.len(),
            start < text@.len(),
            digits == text@.skip(start as int),
            digits == unsigned_part(text@),
            forall|k: int| 0 <= k < digits.len() ==> is_ascii_digit_spec(#[trigger] digits[k]),
            value as nat == decimal_value(digits.take(j - start)),
        decreases text@.len() - j,
    {
        let c = text[j];
        proof {
            let t = digits.take(j - start + 1);
            assert(t.drop_last() =~= digits.take(j - start));
            assert(t.last() == c);
        }
        let d = ((c as u32) - ('0' as u32)) as u64;
        let next = match value.checked_mul(10) {
            Some(v) => v.checked_add(d),
            None => None,
        };
        match next {
            Some(v) => {
                value = v;
            },
            None => {
                proof {
                    lemma_decimal_grows(digits, j - start + 1);
                }
                return None;
            },
        }
        j = j + 1;
    }
    assert(digits.take(digits.len() as int) =~= digits);
    Some(value)
}

/// The first whitespace-free word of a text, if any.
pub open spec fn first_word_spec(s: Seq<char>) -> Option<Seq<char>>
    decreases s.len(),
{
    if s.len() == 0 {
        None
    } else if is_unicode_whitespace(s[0]) {
        first_word_spec(s.drop_first())
    } else {
        Some(s.take(word_len(s) as int))
    }
}

/// How many characters come before the first whitespace.
pub open spec fn word_len(s: Seq<char>) -> nat
    decreases s.len(),
{
    if s.len() == 0 || is_unicode_whitespace(s[0]) {
        0
    } else {
        1 + word_len(s.drop_first())
    }
}

fn first_word(s: &Vec<char>) -> (res: Option<Vec<char>>)
    ensures
        match res {
            Some(w) => first_word_spec(s@) == Some(w@),
            None => first_word_spec(s@) is None,
        },
{
    let mut i: usize = 0;
    assert(s@.skip(0) =~= s@);
    while i < s.len() && char_is_whitespace(s[i])
        invariant
            i <= s@.len(),
            first_word_spec(s@) == first_word_spec(s@.skip(i as int)),
        decreases s@.len() - i,
    {
        assert(s@.skip(i as int).drop_first() =~= s@.skip(i as int + 1));
        i = i + 1;
    }
    if i == s.len() {
        assert(s@.skip(i as int).len() == 0);
        return None;
    }
    let ghost rest = s@.skip(i as int);
    let mut j: usize = i;
    while j < s.len() && !char_is_whitespace(s[j])
        invariant
            i <= j <= s@.len(),
            rest == s@.skip(i as int),
            word_len(rest) == (j - i) + word_len(s@.skip(j as int)),
        decreases s@.len() - j,
    {
        assert(s@.skip(j as int).drop_first() =~= s@.skip(j as int + 1));
        j = j + 1;
    }
    let mut out: Vec<char> = Vec::new();
    let mut k: usize = i;
    while k < j
        invariant
            i <= k <= j,
            j <= s@.len(),
            out@ == s@.subrange(i as int, k as int),
        decreases j - k,
    {
        out.push(s[k]);
        assert(out@ =~= s@.subrange(i as int, k as int + 1));
        k = k + 1;
    }
    assert(out@ =~= rest.take(word_len(rest) as int));
    Some(out)
}

/// The total memory `/proc/meminfo` reports, in MiB: the first word after
/// `MemTotal:` on the first line that starts with it, read as kibibytes.
pub open spec fn meminfo_total_spec(lines: Seq<Seq<char>>) -> Option<u64>
    decreases lines.len(),
{
    if lines.len() == 0 {
        None
    } else if has_prefix(lines[0], "MemTotal:"@) {
        match first_word_spec(lines[0].skip(9)) {
            None => None,
            Some(w) => match parse_u64_spec(w) {
                Some(kb) => Some((kb / 1024) as u64),
                None => None,
            },
        }
    } else {
        meminfo_total_spec(lines.drop_first())
    }
}

/// The machine's memory in MiB, from the text of `/proc/meminfo`.
pub fn memory_mb_from_meminfo(meminfo: &str) -> (res: Option<u64>)
    ensures
        res == meminfo_total_spec(lines_spec(meminfo@)),
{
    let lines = lines_of(meminfo);
    let ghost lv = strings_view(lines@);
    let prefix = chars_of("MemTotal:");
    proof {
        reveal_strlit("MemTotal:");
    }
    assert(prefix@.len() == 9);
    let mut i: usize = 0;
    assert(lv.skip(0) =~= lv);
    while i < lines.len()
        invariant
            i <= lines@.len(),
            lv == strings_view(lines@),
            lv == lines_spec(meminfo@),
            prefix@ == "MemTotal:"@,
            prefix@.len() == 9,
            meminfo_total_spec(lv) == meminfo_total_spec(lv.skip(i as int)),
        decreases lines@.len() - i,
    {
        let line = chars_of(lines[i].as_str());
        assert(lv.skip(i as int)[0] == line@);
        assert(lv.skip(i as int).drop_first() =~= lv.skip(i as int + 1));
        if starts_with(&line, &prefix) {
            let mut rest: Vec<char> = Vec::new();
            let mut k: usize = 9;
            while k < line.len()
                invariant
                    9 <= line@.len(),
                    9 <= k <= line@.len(),
                    rest@ == line@.subrange(9, k as int),
                decreases line@.len() - k,
            {
                rest.push(line[k]);
                assert(rest@ =~= line@.subrange(9, k as int + 1));
                k = k + 1;
            }
            assert(rest@ =~= line@.skip(9));
            return match first_word(&rest) {
                None => None,
                Some(w) => match parse_u64(&w) {
                    Some(kb) => Some(kb / 1024),
                    None => None,
                },
            };
        }
        i = i + 1;
    }
    None
}

/// What Docker reports of the host: its CPU count, which must be positive
/// for the report to count, and its memory in MiB when positive.
pub fn docker_host_hardware(ncpu: Option<i64>, mem_total: Option<i64>) -> (res: Option<(u64, Option<u64>)>)
    ensures
        !(ncpu matches Some(n) && n > 0) ==> res is None,
        ncpu matches Some(n) && n > 0 ==> res == Some(
            (
                ncpu->Some_0 as u64,
                if mem_total matches Some(m) && m >= 1_048_576 {
                    Some((mem_total->Some_0 / 1_048_576) as u64)
                } else {
                    None
                },
            ),
        ),
{
    let cpus = match ncpu {
        Some(n) => if n > 0 {
            n as u64
        } else {
            return None;
        },
        None => return None,
    };
    let memory = match mem_total {
        Some(m) => if m >= 1_048_576 {
            Some((m / 1_048_576) as u64)
        } else {
            None
        },
        None => None,
    };
    Some((cpus, memory))
}

/// The hardware the daemon reports: Docker's view of the host when it has
/// one; otherwise the CPU count of `/proc/cpuinfo`, else the available
/// parallelism, else one, with the memory of `/proc/meminfo`.
pub fn server_hardware(
    docker: Option<(u64, Option<u64>)>,
    cpuinfo_cores: Option<u64>,
    available_parallelism: Option<u64>,
    meminfo_mb: Option<u64>,
) -> (res: (u64, Option<u64>))
    ensures
        docker is Some ==> res == docker->Some_0,
        docker is None ==> res == (
            match cpuinfo_cores {
                Some(c) => c,
                None => match available_parallelism {
                    Some(p) => p,
                    None => 1,
                },
            },
            meminfo_mb,
        ),
{
    match docker {
        Some(found) => found,
        None => {
            let cores = match cpuinfo_cores {
                Some(c) => c,
                None => match available_parallelism {
                    Some(p) => p,
                    None => 1,
                },
            };
            (cores, meminfo_mb)
        },
    }
}

} // verus!
