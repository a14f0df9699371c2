use vstd::prelude::*;

use crate::browse::listed_files;
use crate::keyring::{lines_of, lines_spec};
use crate::sort::{sort_texts, text_order};
use crate::text::{
    char_is_whitespace, chars_of, is_unicode_whitespace, str_trim, string_from_chars, strings_view, to_owned_string,
};

verus! {

/// How many characters of `s` come before its first whitespace.
pub open spec fn token_len(s: Seq<char>) -> nat
    decreases s.len(),
{
    if s.len() == 0 || is_unicode_whitespace(s[0]) {
        0
    } else {
        1 + token_len(s.drop_first())
    }
}

/// The first whitespace-separated word of a line that starts with none.
pub open spec fn first_token(s: Seq<char>) -> Seq<char> {
    s.take(token_len(s) as int)
}

/// A Fedora chroot name, by its prefix.
pub open spec fn is_fedora_name(name: Seq<char>) -> bool {
    name.len() >= 7 && name.take(7) == "fedora-"@
}

/// The Fedora names that open the lines, in line order.
pub open spec fn fedora_tokens(lines: Seq<Seq<char>>) -> Seq<Seq<char>>
    decreases lines.len(),
{
    if lines.len() == 0 {
        seq![]
    } else {
        let rest = fedora_tokens(lines.drop_last());
        let t = first_token(lines.last());
        if is_fedora_name(t) {
            rest.push(t)
        } else {
            rest
        }
    }
}

/// A sorted list without its repeats, as `dedup` leaves it.
pub open spec fn dedup_spec(s: Seq<Seq<char>>) -> Seq<Seq<char>>
    decreases s.len(),
{
    if s.len() <= 1 {
        s
    } else if s[s.len() - 2] == s.last() {
        dedup_spec(s.drop_last())
    } else {
        dedup_spec(s.drop_last()).push(s.last())
    }
}

/// The chroot names `mock --list-chroots` offers: of each non-blank line,
/// its first word when it starts with `fedora-`, sorted and without
/// repeats.
pub open spec fn chroot_candidates_spec(output: Seq<char>) -> Seq<Seq<char>> {
    dedup_spec(fedora_tokens(listed_files(lines_spec(output))).sort_by(text_order()))
}

fn first_token_of(s: &str) -> (res: String)
    ensures
        res@ == first_token(s@),
{
    let c = chars_of(s);
    let mut n: usize = 0;
    assert(s@.skip(0) =~= s@);
    while n < c.len() && !char_is_whitespace(c[n])
        invariant
            n <= c@.len(),
            c@ == s@,
            token_len(s@) == n + token_len(s@.skip(n as int)),
        decreases c@.len() - n,
    {
        assert(s@.skip(n as int).drop_first() =~= s@.skip(n as int + 1));
        n = n + 1;
    }
    let mut out: Vec<char> = Vec::new();
    let mut i: usize = 0;
    while i < n
        invariant
            i <= n,
            n <= c@.len(),
            out@ == c@.take(i as int),
        decreases n - i,
    {
        out.push(c[i]);
        assert(out@ =~= c@.take(i as int + 1));
        i = i + 1;
    }
    string_from_chars(&out)
}

fn starts_with_fedora(name: &str) -> (res: bool)
    ensures
        res == is_fedora_name(name@),
{
    let c = chars_of(name);
    proof {
        reveal_strlit("fedora-");
    }
    if c.len() < 7 {
        return false;
    }
    let res = c[0] == 'f' && c[1] == 'e' && c[2] == 'd' && c[3] == 'o' && c[4] == 'r' && c[5] == 'a' && c[6] == '-';
    proof {
        let head = c@.take(7);
        assert("fedora-"@ =~= seq!['f', 'e', 'd', 'o', 'r', 'a', '-']);
        if res {
            assert(head =~= "fedora-"@);
        } else if head == "fedora-"@ {
            assert(head[0] == 'f' && head[1] == 'e' && head[2] == 'd' && head[3] == 'o' && head[4] == 'r' && head[5]
                == 'a' && head[6] == '-');
        }
    }
    res
}

/// The chroot names offered by the output of `mock --list-chroots`, before
/// the daemon keeps those it can parse.
pub fn mock_chroot_candidates(output: &str) -> (res: Vec<String>)
    ensures
        strings_view(res@) == chroot_candidates_spec(output@),
{
    let lines = lines_of(output);
    let ghost lv = strings_view(lines@);
    let mut names: Vec<String> = Vec::new();
    let mut i: usize = 0;
    while i < lines.len()
        invariant
            i <= lines@.len(),
            lv == strings_view(lines@),
            lv == lines_spec(output@),
            strings_view(names@) == fedora_tokens(listed_files(lv.take(i as int))),
        decreases lines@.len() - i,
    {
        let t = str_trim(lines[i].as_str());
        assert(lv.take(i as int + 1).drop_last() =~= lv.take(i as int));
        assert(lv.take(i as int + 1).last() == lines@[i as int]@);
        if !t.is_empty() {
            let ghost kept = listed_files(lv.take(i as int));
            assert(listed_files(lv.take(i as int + 1)) == kept.push(t@));
            assert(kept.push(t@).drop_last() =~= kept);
            let token = first_token_of(t);
            if starts_with_fedora(token.as_str()) {
                let ghost before = names@;
                names.push(token);
                assert(strings_view(names@) =~= strings_view(before).push(first_token(t@)));
            }
        }
        i = i + 1;
    }
    assert(lv.take(lines@.len() as int) =~= lv);
    let sorted = sort_texts(&names);
    let ghost sv = strings_view(sorted@);
    let mut out: Vec<String> = Vec::new();
    let mut j: usize = 0;
    while j < sorted.len()
        invariant
            j <= sorted@.len(),
            sv == strings_view(sorted@),
            strings_view(out@) == dedup_spec(sv.take(j as int)),
            j > 0 ==> out@.len() > 0 && out@.last()@ == sv[j - 1],
        decreases sorted@.len() - j,
    {
        let ghost pre = sv.take(j as int + 1);
        assert(pre.drop_last() =~= sv.take(j as int));
        assert(pre.last() == sorted@[j as int]@);
        let repeat = j > 0 && out[out.len() - 1] == sorted[j];
        if j > 0 {
            assert(pre[pre.len() - 2] == sv[j - 1]);
            proof {
                lemma_dedup_last(sv.take(j as int));
            }
        }
        if !repeat {
            let ghost before = out@;
            out.push(sorted[j].clone());
            assert(strings_view(out@) =~= strings_view(before).push(sorted@[j as int]@));
        }
        j = j + 1;
    }
    assert(sv.take(sorted@.len() as int) =~= sv);
    out
}

proof fn lemma_dedup_last(s: Seq<Seq<char>>)
    requires
        s.len() > 0,
    ensures
        dedup_spec(s).len() > 0,
        dedup_spec(s).last() == s.last(),
    decreases s.len(),
{
    if s.len() > 1 {
        lemma_dedup_last(s.drop_last());
    }
}

/// For each build, in order, the indices of the published files that
/// belong to it. A build listed twice gets its files the first time only.
pub open spec fn files_of_build(job_ids: Seq<u128>, file_jobs: Seq<u128>, k: int) -> Seq<int> {
    if exists|e: int| 0 <= e < k && job_ids[e] == job_ids[k] {
        seq![]
    } else {
        Seq::new(file_jobs.len(), |f: int| f).filter(|f: int| file_jobs[f] == job_ids[k])
    }
}

fn earlier_occurrence(job_ids: &[u128], k: usize) -> (res: bool)
    requires
        k < job_ids@.len(),
    ensures
        res == exists|e: int| 0 <= e < k && job_ids@[e] == job_ids@[k as int],
{
    let mut e: usize = 0;
    while e < k
        invariant
            e <= k,
            k < job_ids@.len(),
            forall|x: int| 0 <= x < e ==> job_ids@[x] != job_ids@[k as int],
        decreases k - e,
    {
        if job_ids[e] == job_ids[k] {
            return true;
        }
        e = e + 1;
    }
    false
}

/// Groups published files under the builds of a history page: for each
/// build, the positions of its files in `file_jobs`, in file order.
pub fn group_files_by_build(job_ids: &[u128], file_jobs: &[u128]) -> (res: Vec<Vec<usize>>)
    ensures
        res@.len() == job_ids@.len(),
        forall|k: int| 0 <= k < job_ids@.len() ==> (#[trigger] res@[k])@.map_values(|f: usize| f as int)
            == files_of_build(job_ids@, file_jobs@, k),
{
    let mut out: Vec<Vec<usize>> = Vec::new();
    let mut k: usize = 0;
    while k < job_ids.len()
        invariant
            k <= job_ids@.len(),
            out@.len() == k,
            forall|x: int| 0 <= x < k ==> (#[trigger] out@[x])@.map_values(|f: usize| f as int)
                == files_of_build(job_ids@, file_jobs@, x),
        decreases job_ids@.len() - k,
    {
        let mut group: Vec<usize> = Vec::new();
        let ghost all = Seq::new(file_jobs@.len(), |f: int| f);
        let ghost pred = |f: int| file_jobs@[f] == job_ids@[k as int];
        if !earlier_occurrence(job_ids, k) {
            let mut f: usize = 0;
            while f < file_jobs.len()
                invariant
                    f <= file_jobs@.len(),
                    k < job_ids@.len(),
                    all == Seq::new(file_jobs@.len(), |f: int| f),
                    pred == (|f: int| file_jobs@[f] == job_ids@[k as int]),
                    group@.map_values(|g: usize| g as int) == all.take(f as int).filter(pred),
                decreases file_jobs@.len() - f,
            {
                let ghost before = group@;
                assert(all.take(f as int + 1) =~= all.take(f as int).push(f as int));
                proof {
                    all.take(f as int).lemma_filter_push(f as int, pred);
                }
                if file_jobs[f] == job_ids[k] {
                    group.push(f);
                    assert(group@.map_values(|g: usize| g as int) =~= before.map_values(|g: usize| g as int).push(
                        f as int,
                    ));
                }
                f = f + 1;
            }
            assert(all.take(file_jobs@.len() as int) =~= all);
        } else {
            assert(group@.map_values(|g: usize| g as int) =~= Seq::<int>::empty());
        }
        out.push(group);
        k = k + 1;
    }
    out
}

/// Whether a cached chroot list may be served: it was read from the
/// current worker image less than `ttl_seconds` ago.
pub fn chroot_cache_fresh(cached_image: &str, current_image: &str, age_nanos: u128, ttl_seconds: u64) -> (res: bool)
    ensures
        res == (cached_image@ == current_image@ && age_nanos < ttl_seconds as int * 1_000_000_000),
{
    crate::text::str_eq(cached_image, current_image) && age_nanos < (ttl_seconds as u128) * 1_000_000_000
}

/// Whether a stale chroot list may stand in for a failed refresh: only one
/// read from the current worker image.
pub fn chroot_cache_serves_stale(cached_image: Option<&str>, current_image: &str) -> (res: bool)
    ensures
        res == (cached_image matches Some(image) && image@ == current_image@),
{
    match cached_image {
        Some(image) => crate::text::str_eq(image, current_image),
        None => false,
    }
}

/// How the chroot list cache was used.
#[derive(Debug, Clone, Copy, Default, PartialEq, Eq)]
pub struct ChrootCacheStats {
    pub hit_count: u64,
    pub miss_count: u64,
    pub stale_served_count: u64,
}

/// One more, stopping at the largest count.
pub open spec fn bumped(n: u64) -> u64 {
    if n < u64::MAX {
        (n + 1) as u64
    } else {
        n
    }
}

fn bump(n: u64) -> (res: u64)
    ensures
        res == bumped(n),
{
    if n < u64::MAX {
        n + 1
    } else {
        n
    }
}

impl ChrootCacheStats {
    /// Counts a lookup served from the cache.
    pub fn record_hit(&mut self)
        ensures
            *final(self) == (ChrootCacheStats { hit_count: bumped(old(self).hit_count), ..*old(self) }),
    {
        self.hit_count = bump(self.hit_count);
    }

    /// Counts a lookup that had to read the worker image.
    pub fn record_miss(&mut self)
        ensures
            *final(self) == (ChrootCacheStats { miss_count: bumped(old(self).miss_count), ..*old(self) }),
    {
        self.miss_count = bump(self.miss_count);
    }

    /// Counts a failed refresh answered with the stale list.
    pub fn record_stale_served(&mut self)
        ensures
            *final(self) == (ChrootCacheStats { stale_served_count: bumped(old(self).stale_served_count), ..*old(self) }),
    {
        self.stale_served_count = bump(self.stale_served_count);
    }
}

} // verus!
