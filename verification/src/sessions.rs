use vstd::prelude::*;

use vstd::arithmetic::power2::pow2;

use crate::digest::hex_digit;
use crate::text::{concat_strs, str_eq};

verus! {

/// The `k`-th hexadecimal digit (`0 <= k < 32`) of a 128-bit value, most
/// significant first.
pub open spec fn nibble_of(id: u128, k: int) -> int {
    (id as int / pow2((124 - 4 * k) as nat) as int) % 16
}

/// How many hyphens a hyphenated UUID has before position `i`.
pub open spec fn hyphens_before(i: int) -> int {
    if i <= 8 {
        0
    } else if i <= 13 {
        1
    } else if i <= 18 {
        2
    } else if i <= 23 {
        3
    } else {
        4
    }
}

/// The hyphenated lower-case text of the UUID whose 128-bit value is `id`:
/// its 32 hexadecimal digits, most significant first, in groups of 8, 4,
/// 4, 4 and 12.
pub open spec fn uuid_text(id: u128) -> Seq<char> {
    Seq::new(
        36,
        |i: int|
            if i == 8 || i == 13 || i == 18 || i == 23 {
                '-'
            } else {
                hex_digit(nibble_of(id, i - hyphens_before(i)))
            },
    )
}

/// The `k`-th nibble, read with a shift.
proof fn lemma_nibble_is_shift(id: u128, k: int)
    requires
        0 <= k < 32,
    ensures
        nibble_of(id, k) == ((id >> ((124 - 4 * k) as u128)) & 15u128) as int,
{
    let shift = (124 - 4 * k) as u128;
    vstd::bits::lemma_u128_shr_is_div(id, shift);
    let x = id >> shift;
    assert(x % 16 == x & 15) by (bit_vector);
}

/// The `k`-th nibble of `x`, most significant first, by shifting.
spec fn nib(x: u128, k: int) -> u128 {
    (x >> ((124 - 4 * k) as u128)) & 15u128
}

/// Equal high parts above a shift, and an equal nibble at it, give equal
/// high parts from that shift on.
proof fn lemma_shift_step(a: u128, b: u128, s: u128)
    by (bit_vector)
    requires
        s <= 120,
        a >> (s + 4) == b >> (s + 4),
        (a >> s) & 15 == (b >> s) & 15,
    ensures
        a >> s == b >> s,
{
}

/// The top nibble is all that is left after shifting by 124.
proof fn lemma_top_nibble(a: u128, b: u128)
    by (bit_vector)
    requires
        (a >> 124u128) & 15 == (b >> 124u128) & 15,
    ensures
        a >> 124u128 == b >> 124u128,
{
}

/// Values with the same first `m` nibbles agree above bit `128 - 4 * m`.
proof fn lemma_high_nibbles(a: u128, b: u128, m: int)
    requires
        1 <= m <= 32,
        forall|k: int| 0 <= k < 32 ==> #[trigger] nib(a, k) == nib(b, k),
    ensures
        a >> ((128 - 4 * m) as u128) == b >> ((128 - 4 * m) as u128),
    decreases m,
{
    if m == 1 {
        assert(nib(a, 0) == nib(b, 0));
        lemma_top_nibble(a, b);
    } else {
        lemma_high_nibbles(a, b, m - 1);
        assert(nib(a, m - 1) == nib(b, m - 1));
        lemma_shift_step(a, b, (128 - 4 * m) as u128);
    }
}

/// Two values with the same nibbles are equal.
proof fn lemma_nibbles_determine(a: u128, b: u128)
    requires
        forall|k: int| 0 <= k < 32 ==> #[trigger] nibble_of(a, k) == nibble_of(b, k),
    ensures
        a == b,
{
    assert forall|k: int| 0 <= k < 32 implies #[trigger] nib(a, k) == nib(b, k) by {
        lemma_nibble_is_shift(a, k);
        lemma_nibble_is_shift(b, k);
        assert(nibble_of(a, k) == nibble_of(b, k));
    }
    lemma_high_nibbles(a, b, 32);
    assert(a == b) by (bit_vector)
        requires
            a >> 0u128 == b >> 0u128,
    ;
}

/// Distinct jobs have distinct UUID texts, so a worker id names one job.
pub proof fn lemma_uuid_text_injective(a: u128, b: u128)
    requires
        uuid_text(a) == uuid_text(b),
    ensures
        a == b,
{
    assert forall|k: int| 0 <= k < 32 implies #[trigger] nibble_of(a, k) == nibble_of(b, k) by {
        let i: int = k + (if k < 8 {
            0int
        } else if k < 12 {
            1int
        } else if k < 16 {
            2int
        } else if k < 20 {
            3int
        } else {
            4int
        });
        assert(i - hyphens_before(i) == k);
        assert(0 <= i < 36 && i != 8 && i != 13 && i != 18 && i != 23);
        assert(uuid_text(a)[i] == uuid_text(b)[i]);
        let x = nibble_of(a, k);
        let y = nibble_of(b, k);
        assert(uuid_text(a)[i] == hex_digit(x));
        assert(uuid_text(b)[i] == hex_digit(y));
        assert(0 <= x < 16 && 0 <= y < 16);
        assert(hex_digit(x) == hex_digit(y));
        assert((hex_digit(x) as int) == (if x < 10 { 48 + x } else { 87 + x }));
        assert((hex_digit(y) as int) == (if y < 10 { 48 + y } else { 87 + y }));
    }
    lemma_nibbles_determine(a, b);
}

/// Writes `Uuid::from_u128(id)` with `Display`, which gives the hyphenated
/// lower-case form of the big-endian value.
#[verifier::external_body]
pub(crate) fn uuid_hyphenated(id: u128) -> (res: String)
    ensures
        res@ == uuid_text(id),
{
    uuid::Uuid::from_u128(id).to_string()
}

/// A character `{:x}` writes.
pub open spec fn is_lower_hex_digit(c: char) -> bool {
    ('0' <= c && c <= '9') || ('a' <= c && c <= 'f')
}

/// The simple form of a UUID: 32 lower-case hexadecimal digits.
pub open spec fn is_simple_uuid_text(s: Seq<char>) -> bool {
    s.len() == 32 && forall|i: int| 0 <= i < s.len() ==> is_lower_hex_digit(#[trigger] s[i])
}

/// The simple text of the UUID whose value is `id`: its hyphenated text
/// without the hyphens.
pub open spec fn simple_uuid_text(id: u128) -> Seq<char> {
    Seq::new(32, |k: int| hex_digit(nibble_of(id, k)))
}

/// Where the `k`-th digit stands in the hyphenated text.
spec fn digit_position(k: int) -> int {
    k + if k < 8 {
        0int
    } else if k < 12 {
        1int
    } else if k < 16 {
        2int
    } else if k < 20 {
        3int
    } else {
        4int
    }
}

fn digit_position_exec(k: usize) -> (res: usize)
    requires
        k < 32,
    ensures
        res == digit_position(k as int),
{
    if k < 8 {
        k
    } else if k < 12 {
        k + 1
    } else if k < 16 {
        k + 2
    } else if k < 20 {
        k + 3
    } else {
        k + 4
    }
}

/// The simple text of a UUID: its hyphenated text without the hyphens.
pub fn uuid_simple(id: u128) -> (res: String)
    ensures
        res@ == simple_uuid_text(id),
        is_simple_uuid_text(res@),
{
    let hyphenated = uuid_hyphenated(id);
    let chars = crate::text::chars_of(hyphenated.as_str());
    let mut out: Vec<char> = Vec::new();
    let mut k: usize = 0;
    while k < 32
        invariant
            k <= 32,
            chars@ == uuid_text(id),
            out@ == simple_uuid_text(id).take(k as int),
        decreases 32 - k,
    {
        let at = digit_position_exec(k);
        proof {
            assert(at - hyphens_before(at as int) == k);
            assert(chars@[at as int] == hex_digit(nibble_of(id, k as int)));
        }
        out.push(chars[at]);
        assert(out@ =~= simple_uuid_text(id).take(k as int + 1));
        k = k + 1;
    }
    proof {
        assert(simple_uuid_text(id).take(32) =~= simple_uuid_text(id));
        assert forall|i: int| 0 <= i < 32 implies is_lower_hex_digit(#[trigger] simple_uuid_text(id)[i]) by {
            let n = nibble_of(id, i);
            assert(0 <= n < 16);
            assert((hex_digit(n) as int) == (if n < 10 { 48 + n } else { 87 + n }));
        }
    }
    crate::text::string_from_chars(&out)
}

/// The simple text of a fresh time-ordered UUID.
fn new_simple_uuid() -> (res: String)
    ensures
        is_simple_uuid_text(res@),
{
    let ids = new_time_ordered_ids(1);
    uuid_simple(ids[0])
}

/// `count` fresh time-ordered UUIDs, made one after another by
/// `Uuid::now_v7()`, as their 128-bit values. Time and chance decide the
/// values; what the uuid crate documents of them is that all UUIDs this
/// method makes in one process are ordered by their creation, so each is
/// greater than the one made before it.
#[verifier::external_body]
pub(crate) fn new_time_ordered_ids(count: usize) -> (res: Vec<u128>)
    ensures
        res@.len() == count,
        forall|i: int, j: int| 0 <= i < j < count ==> res@[i] < res@[j],
{
    (0..count).map(|_| uuid::Uuid::now_v7().as_u128()).collect()
}

/// The connection a build worker makes for a job.
#[derive(Debug, Clone)]
pub struct WorkerSession {
    pub worker_id: String,
}

impl WorkerSession {
    /// The session of job `job_id`: the worker names itself by the job's
    /// UUID, hyphenated.
    pub fn for_job(job_id: u128) -> (res: WorkerSession)
        ensures
            res.worker_id@ == uuid_text(job_id),
    {
        WorkerSession { worker_id: uuid_hyphenated(job_id) }
    }
}

/// The daemon's record of one worker session.
#[derive(Debug)]
pub struct SessionEntry<P, A> {
    pub job_id: u128,
    pub worker_id: String,
    /// What the worker is sent when it connects.
    pub payload: P,
    /// The container running the worker, once known.
    pub container_id: Option<String>,
    /// The artifacts the worker uploaded, in order.
    pub artifacts: Vec<A>,
}

/// The open worker sessions, at most one per job.
#[derive(Debug)]
pub struct SessionTable<P, A> {
    pub entries: Vec<SessionEntry<P, A>>,
}

/// The position of job `job_id`'s session, if it has one.
pub open spec fn session_index<P, A>(entries: Seq<SessionEntry<P, A>>, job_id: u128) -> Option<int> {
    if exists|i: int| 0 <= i < entries.len() && (#[trigger] entries[i]).job_id == job_id {
        Some(choose|i: int| 0 <= i < entries.len() && (#[trigger] entries[i]).job_id == job_id)
    } else {
        None
    }
}

/// Whether some session belongs to a worker named `worker_id`.
pub open spec fn has_worker<P, A>(entries: Seq<SessionEntry<P, A>>, worker_id: Seq<char>) -> bool {
    exists|i: int| 0 <= i < entries.len() && (#[trigger] entries[i]).worker_id@ == worker_id
}

/// The sessions of the table that have a container, as `(job, container)`.
pub open spec fn container_sessions<P, A>(entries: Seq<SessionEntry<P, A>>) -> Seq<(u128, Seq<char>)>
    decreases entries.len(),
{
    if entries.len() == 0 {
        seq![]
    } else {
        let rest = container_sessions(entries.drop_last());
        match entries.last().container_id {
            Some(c) => rest.push((entries.last().job_id, c@)),
            None => rest,
        }
    }
}

impl<P, A> SessionTable<P, A> {
    /// Each job has at most one session, whose worker is named by the
    /// job's UUID.
    pub open spec fn wf(&self) -> bool {
        &&& forall|i: int, j: int| 0 <= i < j < self.entries@.len() ==> (#[trigger] self.entries@[i]).job_id
            != (#[trigger] self.entries@[j]).job_id
        &&& forall|i: int| 0 <= i < self.entries@.len() ==> (#[trigger] self.entries@[i]).worker_id@ == uuid_text(
            self.entries@[i].job_id,
        )
    }

    /// No sessions.
    pub fn new() -> (res: Self)
        ensures
            res.wf(),
            res.entries@.len() == 0,
    {
        SessionTable { entries: Vec::new() }
    }

    fn find(&self, job_id: u128) -> (res: Option<usize>)
        requires
            self.wf(),
        ensures
            match res {
                Some(i) => i < self.entries@.len() && self.entries@[i as int].job_id == job_id && session_index(
                    self.entries@,
                    job_id,
                ) == Some(i as int),
                None => session_index(self.entries@, job_id) is None,
            },
    {
        let mut i: usize = 0;
        while i < self.entries.len()
            invariant
                self.wf(),
                i <= self.entries@.len(),
                forall|k: int| 0 <= k < i ==> (#[trigger] self.entries@[k]).job_id != job_id,
            decreases self.entries@.len() - i,
        {
            if self.entries[i].job_id == job_id {
                proof {
                    let c = choose|c: int| 0 <= c < self.entries@.len() && (#[trigger] self.entries@[c]).job_id == job_id;
                    assert(c == i);
                }
                return Some(i);
            }
            i = i + 1;
        }
        None
    }

    /// Opens the session of job `job_id`: its worker is named by the job's
    /// UUID and gets `payload`. A session the job already had is replaced.
    pub fn create_session(&mut self, job_id: u128, payload: P) -> (session: WorkerSession)
        requires
            old(self).wf(),
        ensures
            final(self).wf(),
            session.worker_id@ == uuid_text(job_id),
            session_index(final(self).entries@, job_id) matches Some(k) && {
                let e = final(self).entries@[k];
                &&& e.worker_id@ == uuid_text(job_id)
                &&& e.payload == payload
                &&& e.container_id is None
                &&& e.artifacts@.len() == 0
            },
            forall|j: u128| j != job_id ==> session_index(final(self).entries@, j) is Some == session_index(old(self).entries@, j) is Some,
            forall|j: u128| j != job_id && session_index(old(self).entries@, j) is Some ==> final(self).entries@[session_index(final(self).entries@, j)->Some_0] == old(self).entries@[session_index(old(self).entries@, j)->Some_0],
    {
        let worker_id = uuid_hyphenated(job_id);
        let session = WorkerSession { worker_id: worker_id.clone() };
        let entry = SessionEntry { job_id, worker_id, payload, container_id: None, artifacts: Vec::new() };
        let ghost before = self.entries@;
        match self.find(job_id) {
            Some(i) => {
                self.entries.set(i, entry);
                proof {
                    assert forall|a: int, b: int| 0 <= a < b < self.entries@.len() implies (#[trigger] self.entries@[a]).job_id
                        != (#[trigger] self.entries@[b]).job_id by {
                        if a != i && b != i {
                            assert(self.entries@[a] == before[a] && self.entries@[b] == before[b]);
                        } else if a == i {
                            assert(self.entries@[b] == before[b]);
                            assert(before[i as int].job_id == job_id);
                        } else {
                            assert(self.entries@[a] == before[a]);
                            assert(before[i as int].job_id == job_id);
                        }
                    }
                    self.lemma_index_of(i as int);
                    assert forall|j: u128| j != job_id && session_index(before, j) is Some implies {
                        &&& session_index(self.entries@, j) is Some
                        &&& self.entries@[session_index(self.entries@, j)->Some_0] == before[session_index(before, j)->Some_0]
                    } by {
                        let k = session_index(before, j)->Some_0;
                        assert(before[k].job_id == j);
                        assert(k != i);
                        assert(self.entries@[k] == before[k]);
                        self.lemma_index_of(k);
                    }
                    assert forall|j: u128| j != job_id && session_index(self.entries@, j) is Some implies session_index(before, j) is Some by {
                        let k = session_index(self.entries@, j)->Some_0;
                        assert(self.entries@[k].job_id == j);
                        assert(k != i);
                        assert(before[k] == self.entries@[k]);
                    }
                }
            },
            None => {
                self.entries.push(entry);
                proof {
                    assert forall|a: int, b: int| 0 <= a < b < self.entries@.len() implies (#[trigger] self.entries@[a]).job_id
                        != (#[trigger] self.entries@[b]).job_id by {
                        if b == before.len() {
                            assert(self.entries@[a] == before[a]);
                            assert(before[a].job_id != job_id);
                        } else {
                            assert(self.entries@[a] == before[a] && self.entries@[b] == before[b]);
                        }
                    }
                    self.lemma_index_of(before.len() as int);
                    assert forall|j: u128| j != job_id && session_index(before, j) is Some implies {
                        &&& session_index(self.entries@, j) is Some
                        &&& self.entries@[session_index(self.entries@, j)->Some_0] == before[session_index(before, j)->Some_0]
                    } by {
                        let k = session_index(before, j)->Some_0;
                        assert(before[k].job_id == j);
                        assert(self.entries@[k] == before[k]);
                        self.lemma_index_of(k);
                    }
                    assert forall|j: u128| j != job_id && session_index(self.entries@, j) is Some implies session_index(before, j) is Some by {
                        let k = session_index(self.entries@, j)->Some_0;
                        assert(self.entries@[k].job_id == j);
                        assert(k < before.len());
                        assert(before[k] == self.entries@[k]);
                    }
                }
            },
        }
        session
    }

    /// In a well-formed table the session at `k` is the one found for its
    /// job.
    proof fn lemma_index_of(&self, k: int)
        requires
            self.wf(),
            0 <= k < self.entries@.len(),
        ensures
            session_index(self.entries@, self.entries@[k].job_id) == Some(k),
    {
        let j = self.entries@[k].job_id;
        let c = choose|c: int| 0 <= c < self.entries@.len() && (#[trigger] self.entries@[c]).job_id == j;
        if c != k {
            assert(self.entries@[c].job_id == self.entries@[k].job_id);
        }
    }

    /// Records the container of job `job_id`'s session; nothing happens
    /// when the job has none.
    pub fn set_container_id(&mut self, job_id: u128, container_id: String)
        requires
            old(self).wf(),
        ensures
            final(self).wf(),
            final(self).entries@.len() == old(self).entries@.len(),
            match session_index(old(self).entries@, job_id) {
                None => final(self).entries@ == old(self).entries@,
                Some(k) => forall|i: int| 0 <= i < old(self).entries@.len() ==> {
                    let (a, b) = (#[trigger] final(self).entries@[i], old(self).entries@[i]);
                    &&& a.job_id == b.job_id
                    &&& a.worker_id == b.worker_id
                    &&& a.payload == b.payload
                    &&& a.artifacts == b.artifacts
                    &&& a.container_id == if i == k {
                        Some(container_id)
                    } else {
                        b.container_id
                    }
                },
            },
    {
        if let Some(i) = self.find(job_id) {
            let mut entry = self.entries.remove(i);
            entry.container_id = Some(container_id);
            self.entries.insert(i, entry);
        }
    }

    /// The session of the worker named `worker_id`: its job and payload.
    pub fn connect_worker(&self, worker_id: &str) -> (res: Option<(u128, &P)>)
        ensures
            match res {
                Some((job, payload)) => exists|i: int|
                    0 <= i < self.entries@.len() && (#[trigger] self.entries@[i]).worker_id@ == worker_id@
                        && self.entries@[i].job_id == job && self.entries@[i].payload == *payload,
                None => !has_worker(self.entries@, worker_id@),
            },
    {
        let mut i: usize = 0;
        while i < self.entries.len()
            invariant
                i <= self.entries@.len(),
                forall|k: int| 0 <= k < i ==> (#[trigger] self.entries@[k]).worker_id@ != worker_id@,
            decreases self.entries@.len() - i,
        {
            if str_eq(self.entries[i].worker_id.as_str(), worker_id) {
                return Some((self.entries[i].job_id, &self.entries[i].payload));
            }
            i = i + 1;
        }
        None
    }

    /// Adds an uploaded artifact to job `job_id`'s session; `false`, with
    /// nothing changed, when the job has none.
    pub fn record_artifact(&mut self, job_id: u128, artifact: A) -> (recorded: bool)
        requires
            old(self).wf(),
        ensures
            final(self).wf(),
            recorded == session_index(old(self).entries@, job_id) is Some,
            final(self).entries@.len() == old(self).entries@.len(),
            forall|i: int| 0 <= i < old(self).entries@.len() ==> {
                let (a, b) = (#[trigger] final(self).entries@[i], old(self).entries@[i]);
                &&& a.job_id == b.job_id
                &&& a.worker_id == b.worker_id
                &&& a.payload == b.payload
                &&& a.container_id == b.container_id
                &&& a.artifacts@ == if session_index(old(self).entries@, job_id) == Some(i) {
                    b.artifacts@.push(artifact)
                } else {
                    b.artifacts@
                }
            },
    {
        match self.find(job_id) {
            Some(i) => {
                let mut entry = self.entries.remove(i);
                entry.artifacts.push(artifact);
                self.entries.insert(i, entry);
                true
            },
            None => false,
        }
    }

    /// The sessions whose container is known, as `(job, container)`, in
    /// table order.
    pub fn active_container_sessions(&self) -> (res: Vec<(u128, String)>)
        ensures
            res@.map_values(|p: (u128, String)| (p.0, p.1@)) == container_sessions(self.entries@),
    {
        let mut out: Vec<(u128, String)> = Vec::new();
        let mut i: usize = 0;
        while i < self.entries.len()
            invariant
                i <= self.entries@.len(),
                out@.map_values(|p: (u128, String)| (p.0, p.1@)) == container_sessions(self.entries@.take(i as int)),
            decreases self.entries@.len() - i,
        {
            assert(self.entries@.take(i as int + 1).drop_last() =~= self.entries@.take(i as int));
            assert(self.entries@.take(i as int + 1).last() == self.entries@[i as int]);
            match &self.entries[i].container_id {
                Some(c) => {
                    let ghost before = out@;
                    out.push((self.entries[i].job_id, c.clone()));
                    assert(out@.map_values(|p: (u128, String)| (p.0, p.1@)) =~= before.map_values(
                        |p: (u128, String)| (p.0, p.1@),
                    ).push((self.entries@[i as int].job_id, c@)));
                },
                None => {},
            }
            i = i + 1;
        }
        assert(self.entries@.take(self.entries@.len() as int) =~= self.entries@);
        out
    }

    /// Whether job `job_id` has a session. A wait for the result of a job
    /// without one ends at once, with no result.
    pub fn has_session(&self, job_id: u128) -> (res: bool)
        requires
            self.wf(),
        ensures
            res == session_index(self.entries@, job_id) is Some,
    {
        self.find(job_id).is_some()
    }

    /// Closes job `job_id`'s session, giving it back; `None` when it has
    /// none. Afterwards the job has no session, no worker is handed it,
    /// and no container is listed for it; the other sessions stay as they
    /// were.
    pub fn remove_session(&mut self, job_id: u128) -> (removed: Option<SessionEntry<P, A>>)
        requires
            old(self).wf(),
        ensures
            final(self).wf(),
            match session_index(old(self).entries@, job_id) {
                None => removed is None && final(self).entries@ == old(self).entries@,
                Some(k) => removed == Some(old(self).entries@[k]) && final(self).entries@ == old(self).entries@.remove(k),
            },
            session_index(final(self).entries@, job_id) is None,
            !has_worker(final(self).entries@, uuid_text(job_id)),
            forall|i: int|
                0 <= i < container_sessions(final(self).entries@).len() ==> (#[trigger] container_sessions(
                    final(self).entries@,
                )[i]).0 != job_id,
            forall|j: u128|
                j != job_id ==> (session_index(final(self).entries@, j) is Some <==> session_index(
                    old(self).entries@,
                    j,
                ) is Some),
            forall|j: u128|
                j != job_id && session_index(old(self).entries@, j) is Some ==> final(self).entries@[session_index(
                    final(self).entries@,
                    j,
                )->Some_0] == old(self).entries@[session_index(old(self).entries@, j)->Some_0],
    {
        let ghost before = self.entries@;
        let res = match self.find(job_id) {
            Some(i) => {
                let entry = self.entries.remove(i);
                proof {
                    assert forall|a: int, b: int| 0 <= a < b < self.entries@.len() implies (#[trigger] self.entries@[a]).job_id
                        != (#[trigger] self.entries@[b]).job_id by {
                        let oa = if a < i { a } else { a + 1 };
                        let ob = if b < i { b } else { b + 1 };
                        assert(self.entries@[a] == before[oa] && self.entries@[b] == before[ob]);
                    }
                    assert forall|a: int| 0 <= a < self.entries@.len() implies (#[trigger] self.entries@[a]).job_id
                        != job_id by {
                        let oa = if a < i { a } else { a + 1 };
                        assert(self.entries@[a] == before[oa]);
                        assert(before[i as int].job_id == job_id);
                    }
                    assert forall|j: u128| j != job_id && session_index(before, j) is Some implies {
                        &&& session_index(self.entries@, j) is Some
                        &&& self.entries@[session_index(self.entries@, j)->Some_0] == before[session_index(before, j)->Some_0]
                    } by {
                        let k = session_index(before, j)->Some_0;
                        assert(before[k].job_id == j);
                        assert(k != i);
                        let nk = if k < i { k } else { k - 1 };
                        assert(self.entries@[nk] == before[k]);
                        self.lemma_index_of(nk);
                    }
                    assert forall|j: u128| j != job_id && session_index(self.entries@, j) is Some implies session_index(
                        before,
                        j,
                    ) is Some by {
                        let k = session_index(self.entries@, j)->Some_0;
                        let ok = if k < i { k } else { k + 1 };
                        assert(before[ok] == self.entries@[k]);
                    }
                }
                Some(entry)
            },
            None => None,
        };
        proof {
            lemma_worker_id_names_its_job(*self, job_id);
            lemma_container_jobs(self.entries@);
        }
        res
    }
}

/// Every `(job, container)` listed for a table is the job of one of its
/// sessions.
proof fn lemma_container_jobs<P, A>(entries: Seq<SessionEntry<P, A>>)
    ensures
        forall|i: int|
            0 <= i < container_sessions(entries).len() ==> exists|k: int|
                0 <= k < entries.len() && (#[trigger] entries[k]).job_id == (#[trigger] container_sessions(entries)[i]).0,
    decreases entries.len(),
{
    if entries.len() > 0 {
        let rest = entries.drop_last();
        lemma_container_jobs(rest);
        assert forall|i: int| 0 <= i < container_sessions(entries).len() implies exists|k: int|
            0 <= k < entries.len() && (#[trigger] entries[k]).job_id == (#[trigger] container_sessions(entries)[i]).0 by {
            if i < container_sessions(rest).len() {
                assert(container_sessions(entries)[i] == container_sessions(rest)[i]);
                let k = choose|k: int| 0 <= k < rest.len() && (#[trigger] rest[k]).job_id == container_sessions(rest)[i].0;
                assert(entries[k] == rest[k]);
            } else {
                assert(entries[entries.len() - 1].job_id == container_sessions(entries)[i].0);
            }
        }
    }
}

/// A worker that connects with the id of job `job_id` is handed that
/// job's session and no other: some session carries the id exactly when
/// the job has one, and every session carrying it is the job's.
pub proof fn lemma_worker_id_names_its_job<P, A>(table: SessionTable<P, A>, job_id: u128)
    requires
        table.wf(),
    ensures
        has_worker(table.entries@, uuid_text(job_id)) <==> session_index(table.entries@, job_id) is Some,
        forall|i: int|
            0 <= i < table.entries@.len() && (#[trigger] table.entries@[i]).worker_id@ == uuid_text(job_id) ==> table.entries@[i].job_id
                == job_id,
{
    let entries = table.entries@;
    assert forall|i: int| 0 <= i < entries.len() && (#[trigger] entries[i]).worker_id@ == uuid_text(job_id) implies entries[i].job_id
        == job_id by {
        assert(entries[i].worker_id@ == uuid_text(entries[i].job_id));
        lemma_uuid_text_injective(entries[i].job_id, job_id);
    }
    if session_index(entries, job_id) is Some {
        let k = session_index(entries, job_id)->Some_0;
        assert(entries[k].worker_id@ == uuid_text(entries[k].job_id));
    }
    if has_worker(entries, uuid_text(job_id)) {
        let i = choose|i: int| 0 <= i < entries.len() && (#[trigger] entries[i]).worker_id@ == uuid_text(job_id);
        assert(entries[i].job_id == job_id);
    }
}

/// The artifacts a finished build reports: those listed in the worker's
/// result, or, when it lists none, those it uploaded.
pub fn merge_result_artifacts<A>(reported: Vec<A>, uploaded: Vec<A>) -> (res: Vec<A>)
    ensures
        res@ == if reported@.len() == 0 {
            uploaded@
        } else {
            reported@
        },
{
    if reported.len() == 0 {
        uploaded
    } else {
        reported
    }
}

/// The user id of a managed signing key generated with `nonce`.
pub open spec fn managed_identity_text(nonce: Seq<char>) -> Seq<char> {
    "Synforge Repository Signing "@ + nonce + " <synforge+"@ + nonce + "@localhost>"@
}

/// The user id of a managed signing key generated with `nonce`.
pub fn managed_key_identity(nonce: &str) -> (res: String)
    ensures
        res@ == managed_identity_text(nonce@),
{
    let a = concat_strs("Synforge Repository Signing ", nonce);
    let b = concat_strs(a.as_str(), " <synforge+");
    let c = concat_strs(b.as_str(), nonce);
    concat_strs(c.as_str(), "@localhost>")
}

/// The user id for a new managed signing key, made unique by a fresh
/// time-ordered UUID.
pub fn new_managed_key_identity() -> (res: String)
    ensures
        exists|nonce: Seq<char>| is_simple_uuid_text(nonce) && res@ == managed_identity_text(nonce),
{
    let nonce = new_simple_uuid();
    managed_key_identity(nonce.as_str())
}

/// The UUID a text names, in any form `Uuid::parse_str` reads.
pub uninterp spec fn uuid_parsed(text: Seq<char>) -> Option<u128>;

/// Reads a UUID with `Uuid::parse_str`, giving its 128-bit value, or
/// `None` when the text is no UUID.
#[verifier::external_body]
fn parse_uuid(text: &str) -> (res: Option<u128>)
    ensures
        res == uuid_parsed(text@),
{
    match uuid::Uuid::parse_str(text) {
        Ok(id) => Some(id.as_u128()),
        Err(_) => None,
    }
}

/// The job a directory under a jobs root may be left over from: its name
/// must be a UUID of no active worker session. Whether the job still
/// exists is asked of the store afterwards.
pub fn orphan_job_dir(dir_name: &str, active_job_ids: &[u128]) -> (res: Option<u128>)
    ensures
        match uuid_parsed(dir_name@) {
            None => res is None,
            Some(id) => if active_job_ids@.contains(id) {
                res is None
            } else {
                res == Some(id)
            },
        },
{
    let id = match parse_uuid(dir_name) {
        Some(id) => id,
        None => return None,
    };
    let mut i: usize = 0;
    while i < active_job_ids.len()
        invariant
            i <= active_job_ids@.len(),
            uuid_parsed(dir_name@) == Some(id),
            forall|k: int| 0 <= k < i ==> active_job_ids@[k] != id,
        decreases active_job_ids@.len() - i,
    {
        if active_job_ids[i] == id {
            assert(active_job_ids@[i as int] == id);
            assert(active_job_ids@.contains(id));
            return None;
        }
        i = i + 1;
    }
    Some(id)
}

} // verus!
