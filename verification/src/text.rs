use vstd::prelude::*;

verus! {

/// Whether a character has the Unicode `White_Space` property, which
/// `char::is_whitespace` reports: the controls U+0009 to U+000D, the space,
/// U+0085, the no-break space U+00A0, U+1680, the spaces U+2000 to U+200A,
/// the line and paragraph separators U+2028 and U+2029, U+202F, U+205F and
/// the ideographic space U+3000.
pub open spec fn is_unicode_whitespace(c: char) -> bool {
    let n = c as u32;
    ||| 0x09 <= n <= 0x0d
    ||| n == 0x20
    ||| n == 0x85
    ||| n == 0xa0
    ||| n == 0x1680
    ||| 0x2000 <= n <= 0x200a
    ||| n == 0x2028
    ||| n == 0x2029
    ||| n == 0x202f
    ||| n == 0x205f
    ||| n == 0x3000
}

/// Number of whitespace characters at the front of `s`.
pub open spec fn leading_whitespace(s: Seq<char>) -> nat
    decreases s.len(),
{
    if s.len() == 0 {
        0
    } else if is_unicode_whitespace(s[0]) {
        1 + leading_whitespace(s.drop_first())
    } else {
        0
    }
}

/// Number of whitespace characters at the back of `s`.
pub open spec fn trailing_whitespace(s: Seq<char>) -> nat
    decreases s.len(),
{
    if s.len() == 0 {
        0
    } else if is_unicode_whitespace(s.last()) {
        1 + trailing_whitespace(s.drop_last())
    } else {
        0
    }
}

/// `s` without its leading whitespace.
pub open spec fn trim_start_spec(s: Seq<char>) -> Seq<char> {
    s.skip(leading_whitespace(s) as int)
}

/// `s` without its leading and trailing whitespace.
pub open spec fn trim_spec(s: Seq<char>) -> Seq<char> {
    let t = trim_start_spec(s);
    t.take(t.len() - trailing_whitespace(t))
}

/// Every character of `s` is whitespace.
pub open spec fn all_whitespace(s: Seq<char>) -> bool {
    forall|i: int| 0 <= i < s.len() ==> is_unicode_whitespace(#[trigger] s[i])
}

/// Whether `c` has the Unicode `White_Space` property.
pub fn char_is_whitespace(c: char) -> (res: bool)
    ensures
        res == is_unicode_whitespace(c),
{
    match c {
        '\u{9}'..='\u{d}' | ' ' | '\u{85}' | '\u{a0}' | '\u{1680}' | '\u{2000}'..='\u{200a}' | '\u{2028}'
        | '\u{2029}' | '\u{202f}' | '\u{205f}' | '\u{3000}' => true,
        _ => false,
    }
}

/// Wraps `str::trim`: per its documentation the result is `s` with leading
/// and trailing `White_Space` characters removed.
#[verifier::external_body]
pub(crate) fn str_trim(s: &str) -> (res: &str)
    ensures
        res@ == trim_spec(s@),
{
    s.trim()
}

/// Whether two string slices hold the same characters.
pub fn str_eq(a: &str, b: &str) -> (res: bool)
    ensures
        res == (a@ == b@),
{
    let ac = chars_of(a);
    let bc = chars_of(b);
    if ac.len() != bc.len() {
        return false;
    }
    let mut i: usize = 0;
    while i < ac.len()
        invariant
            ac@ == a@,
            bc@ == b@,
            ac@.len() == bc@.len(),
            i <= ac@.len(),
            forall|j: int| 0 <= j < i ==> ac@[j] == bc@[j],
        decreases ac@.len() - i,
    {
        if ac[i] != bc[i] {
            return false;
        }
        i = i + 1;
    }
    assert(a@ =~= b@);
    true
}

/// Wraps `String::from_iter` over characters: the string holds exactly the
/// given characters, in order.
#[verifier::external_body]
pub(crate) fn string_from_chars(chars: &Vec<char>) -> (res: String)
    ensures
        res@ == chars@,
{
    String::from_iter(chars.iter())
}

/// The text of an optional string.
pub open spec fn text_opt(o: Option<String>) -> Option<Seq<char>> {
    match o {
        Some(s) => Some(s@),
        None => None,
    }
}

/// The texts of a list of strings.
pub open spec fn strings_view(v: Seq<String>) -> Seq<Seq<char>> {
    v.map_values(|s: String| s@)
}

/// The characters of `s`, in order.
pub fn chars_of(s: &str) -> (res: Vec<char>)
    ensures
        res@ == s@,
{
    let mut out: Vec<char> = Vec::new();
    for c in it: s.chars()
        invariant
            out@ == it.seq().take(it.index() as int),
            it.seq() == s@,
    {
        out.push(c);
        assert(out@ =~= it.seq().take(it.index() as int + 1));
    }
    assert(out@ =~= s@);
    out
}

/// A copy of `s` as an owned string.
pub fn to_owned_string(s: &str) -> (res: String)
    ensures
        res@ == s@,
{
    let chars = chars_of(s);
    string_from_chars(&chars)
}

/// A string is blank when trimming leaves nothing, i.e. all its characters
/// are whitespace.
pub proof fn lemma_trim_empty_iff_all_whitespace(s: Seq<char>)
    ensures
        trim_spec(s).len() == 0 <==> all_whitespace(s),
    decreases s.len(),
{
    lemma_leading_whitespace_bound(s);
    let t = trim_start_spec(s);
    lemma_trailing_whitespace_bound(t);
    if s.len() == 0 {
    } else if is_unicode_whitespace(s[0]) {
        lemma_trim_empty_iff_all_whitespace(s.drop_first());
        assert(trim_start_spec(s) =~= trim_start_spec(s.drop_first()));
        lemma_trim_start_then_trailing(s.drop_first());
        lemma_trim_start_then_trailing(s);
        if all_whitespace(s.drop_first()) {
            assert forall|i: int| 0 <= i < s.len() implies is_unicode_whitespace(#[trigger] s[i]) by {
                if i > 0 {
                    assert(s[i] == s.drop_first()[i - 1]);
                }
            }
        }
        if all_whitespace(s) {
            assert forall|i: int| 0 <= i < s.drop_first().len() implies is_unicode_whitespace(
                #[trigger] s.drop_first()[i],
            ) by {
                assert(s.drop_first()[i] == s[i + 1]);
            }
        }
    } else {
        assert(leading_whitespace(s) == 0);
        assert(t =~= s);
        lemma_trailing_not_all(s);
        assert(!all_whitespace(s));
    }
}

proof fn lemma_leading_whitespace_bound(s: Seq<char>)
    ensures
        leading_whitespace(s) <= s.len(),
    decreases s.len(),
{
    if s.len() > 0 && is_unicode_whitespace(s[0]) {
        lemma_leading_whitespace_bound(s.drop_first());
    }
}

proof fn lemma_trailing_whitespace_bound(s: Seq<char>)
    ensures
        trailing_whitespace(s) <= s.len(),
    decreases s.len(),
{
    if s.len() > 0 && is_unicode_whitespace(s.last()) {
        lemma_trailing_whitespace_bound(s.drop_last());
    }
}

/// When `s` starts with a non-whitespace character, trailing whitespace
/// never covers all of it.
proof fn lemma_trailing_not_all(s: Seq<char>)
    requires
        s.len() > 0,
        !is_unicode_whitespace(s[0]),
    ensures
        trailing_whitespace(s) < s.len(),
    decreases s.len(),
{
    if s.len() > 1 && is_unicode_whitespace(s.last()) {
        assert(s.drop_last()[0] == s[0]);
        lemma_trailing_not_all(s.drop_last());
    }
}

/// The trimmed length of `s` is zero exactly when the trimmed length of its
/// leading-whitespace-free suffix is zero.
proof fn lemma_trim_start_then_trailing(s: Seq<char>)
    ensures
        trim_spec(s).len() == 0 <==> trim_start_spec(s).len() == trailing_whitespace(
            trim_start_spec(s),
        ),
{
    lemma_leading_whitespace_bound(s);
    lemma_trailing_whitespace_bound(trim_start_spec(s));
}


/// `a` followed by `b`, as an owned string.
pub fn concat_strs(a: &str, b: &str) -> (res: String)
    ensures
        res@ == a@ + b@,
{
    let mut chars = chars_of(a);
    let tail = chars_of(b);
    let ghost base = chars@;
    let mut k: usize = 0;
    while k < tail.len()
        invariant
            k <= tail@.len(),
            chars@ == base + tail@.take(k as int),
        decreases tail@.len() - k,
    {
        chars.push(tail[k]);
        assert(chars@ =~= base + tail@.take(k as int + 1));
        k = k + 1;
    }
    assert(tail@.take(tail@.len() as int) =~= tail@);
    string_from_chars(&chars)
}

/// The decimal text of `n`.
pub open spec fn decimal_text(n: nat) -> Seq<char>
    decreases n,
{
    if n < 10 {
        seq![(('0' as nat) + n) as char]
    } else {
        decimal_text(n / 10).push((('0' as nat) + n % 10) as char)
    }
}

/// The decimal digits of `n`.
pub fn decimal_string(n: u64) -> (res: Vec<char>)
    ensures
        res@ == decimal_text(n as nat),
    decreases n,
{
    if n < 10 {
        let mut out: Vec<char> = Vec::new();
        out.push(((('0' as u8) + (n as u8)) as char));
        assert(out@ =~= decimal_text(n as nat));
        out
    } else {
        let mut out = decimal_string(n / 10);
        let digit = (n % 10) as u8;
        out.push(((('0' as u8) + digit) as char));
        assert(out@ =~= decimal_text(n as nat));
        out
    }
}

} // verus!
