use vstd::prelude::*;

verus! {

/// A UTF-8 continuation byte (`10xxxxxx`).
pub open spec fn is_continuation(b: u8) -> bool {
    0x80 <= b && b < 0xC0
}

/// A byte that starts a multi-byte UTF-8 sequence.
pub open spec fn is_lead(b: u8) -> bool {
    b >= 0xC0
}

/// The length of the sequence a lead byte starts.
pub open spec fn lead_len(b: u8) -> int {
    if b >= 0xF0 {
        4
    } else if b >= 0xE0 {
        3
    } else {
        2
    }
}

/// The bytes of `buf` before index `i` end with a whole character: there
/// are none, the last is ASCII, or a lead byte followed only by
/// continuation bytes starts a sequence that ends exactly at `i`. A prefix
/// that ends inside a character, or in continuation bytes no lead byte
/// accounts for, does not.
pub open spec fn ends_whole(buf: Seq<u8>, i: int) -> bool {
    ||| i == 0
    ||| buf[i - 1] < 0x80
    ||| exists|p: int|
        0 <= p < i && is_lead(#[trigger] buf[p]) && (forall|q: int| p < q < i ==> is_continuation(buf[q]))
            && p + lead_len(buf[p]) == i
}

fn lead_len_exec(b: u8) -> (res: usize)
    ensures
        res == lead_len(b),
{
    if b >= 0xF0 {
        4
    } else if b >= 0xE0 {
        3
    } else {
        2
    }
}

/// The largest index, at most `buffer.len()`, at which the bytes before it
/// end with a whole character: a character the buffer cuts short is left
/// out, and so are trailing continuation bytes that belong to no
/// character.
pub fn find_utf8_boundary(buffer: &[u8]) -> (res: usize)
    ensures
        res <= buffer@.len(),
        ends_whole(buffer@, res as int),
        forall|j: int| res < j <= buffer@.len() ==> !ends_whole(buffer@, j),
{
    let ghost buf = buffer@;
    let mut i = buffer.len();
    while i > 0
        invariant
            buf == buffer@,
            i <= buf.len(),
            forall|j: int| i < j <= buf.len() ==> !ends_whole(buf, j),
        decreases i,
    {
        if buffer[i - 1] < 0x80 {
            return i;
        }
        let mut p = i;
        while p > 0 && 0x80 <= buffer[p - 1] && buffer[p - 1] < 0xC0
            invariant
                buf == buffer@,
                p <= i <= buf.len(),
                forall|q: int| p <= q < i ==> is_continuation(buf[q]),
            decreases p,
        {
            p = p - 1;
        }
        // Every index in (p, i] ends in the continuation run [p, i); only the
        // lead byte just before the run can account for it.
        proof {
            assert forall|j: int| p < j <= i && ends_whole(buf, j) implies p > 0 && is_lead(buf[p - 1])
                && (p - 1) + lead_len(buf[p - 1]) == j by {
                assert(is_continuation(buf[j - 1]));
                let w = choose|w: int|
                    0 <= w < j && is_lead(#[trigger] buf[w]) && (forall|q: int| w < q < j ==> is_continuation(buf[q]))
                        && w + lead_len(buf[w]) == j;
                if w >= p {
                    assert(is_continuation(buf[w]));
                } else if w < p - 1 {
                    assert(is_continuation(buf[p - 1]));
                }
            }
        }
        if p == 0 {
            return 0;
        }
        let lead = p - 1;
        let b = buffer[lead];
        if b >= 0xC0 {
            let n = lead_len_exec(b);
            if n <= i - lead {
                let end = lead + n;
                proof {
                    assert(ends_whole(buf, end as int)) by {
                        assert(is_lead(buf[lead as int]));
                        assert(forall|q: int| lead < q < end ==> is_continuation(buf[q]));
                    }
                }
                return end;
            }
        }
        if p == i {
            proof {
                assert(!ends_whole(buf, i as int)) by {
                    if ends_whole(buf, i as int) {
                        let w = choose|w: int|
                            0 <= w < i && is_lead(#[trigger] buf[w]) && (forall|q: int| w < q < i ==> is_continuation(
                                buf[q],
                            )) && w + lead_len(buf[w]) == i;
                        if w < i - 1 {
                            assert(is_continuation(buf[i - 1]));
                        }
                    }
                }
            }
            i = i - 1;
        } else {
            i = p;
        }
    }
    0
}

/// Number of line feeds in `bytes`.
pub open spec fn newline_count(bytes: Seq<u8>) -> nat
    decreases bytes.len(),
{
    if bytes.len() == 0 {
        0
    } else {
        newline_count(bytes.drop_last()) + if bytes.last() == 10 {
            1nat
        } else {
            0nat
        }
    }
}

proof fn lemma_newline_count_bound(bytes: Seq<u8>)
    ensures
        newline_count(bytes) <= bytes.len(),
    decreases bytes.len(),
{
    if bytes.len() > 0 {
        lemma_newline_count_bound(bytes.drop_last());
    }
}

/// Counts the line feeds in a block of a log file.
pub fn count_newlines(bytes: &[u8]) -> (res: usize)
    ensures
        res == newline_count(bytes@),
{
    let mut count: usize = 0;
    let mut i: usize = 0;
    while i < bytes.len()
        invariant
            i <= bytes@.len(),
            count == newline_count(bytes@.take(i as int)),
        decreases bytes@.len() - i,
    {
        proof {
            let t = bytes@.take(i + 1);
            assert(t.drop_last() =~= bytes@.take(i as int));
            lemma_newline_count_bound(bytes@.take(i as int));
        }
        if bytes[i] == 10 {
            count = count + 1;
        }
        i = i + 1;
    }
    assert(bytes@.take(bytes@.len() as int) =~= bytes@);
    count
}

/// The line a log position falls on, given the line feeds before it: lines
/// are numbered from one.
pub fn line_number_after(newlines_before: u64) -> (res: u64)
    requires
        newlines_before < u64::MAX,
    ensures
        res == newlines_before + 1,
{
    newlines_before + 1
}

/// Default size of a log chunk.
pub const DEFAULT_LOG_CHUNK: usize = 65536;

/// Smallest chunk a request may ask for.
pub const MIN_LOG_CHUNK: usize = 1024;

/// Largest chunk a request may ask for.
pub const MAX_LOG_CHUNK: usize = 524288;

/// Which bytes of a log file a chunk request reads.
#[derive(Debug, Clone, Copy, PartialEq, Eq)]
pub struct LogWindow {
    pub start: u64,
    pub read_len: u64,
}

/// The chunk size a request ends up with.
pub open spec fn chunk_limit(limit: Option<usize>) -> int {
    let requested = match limit {
        Some(l) => l as int,
        None => DEFAULT_LOG_CHUNK as int,
    };
    if requested < MIN_LOG_CHUNK {
        MIN_LOG_CHUNK as int
    } else if requested > MAX_LOG_CHUNK {
        MAX_LOG_CHUNK as int
    } else {
        requested
    }
}

/// Where a chunk starts: the cursor (capped at the file size) moved by the
/// offset, kept inside the file.
pub open spec fn chunk_start(file_size: u64, cursor: Option<u64>, offset: Option<i64>) -> int {
    let c = match cursor {
        Some(c) => if c > file_size {
            file_size as int
        } else {
            c as int
        },
        None => 0,
    };
    let o = match offset {
        Some(o) => o as int,
        None => 0,
    };
    let target = c + o;
    if target < 0 {
        0
    } else if target > file_size {
        file_size as int
    } else {
        target
    }
}

/// Plans a log chunk read: from where, and how many bytes (at most the
/// chunk size, and never past the end of the file).
pub fn plan_log_chunk(file_size: u64, cursor: Option<u64>, offset: Option<i64>, limit: Option<usize>) -> (window: LogWindow)
    ensures
        window.start == chunk_start(file_size, cursor, offset),
        window.read_len == if chunk_limit(limit) < file_size - window.start {
            chunk_limit(limit)
        } else {
            file_size - window.start
        },
        window.start + window.read_len <= file_size,
{
    let requested = match limit {
        Some(l) => l,
        None => DEFAULT_LOG_CHUNK,
    };
    let max_len: u64 = if requested < MIN_LOG_CHUNK {
        MIN_LOG_CHUNK as u64
    } else if requested > MAX_LOG_CHUNK {
        MAX_LOG_CHUNK as u64
    } else {
        requested as u64
    };
    let c: u64 = match cursor {
        Some(c) => if c > file_size {
            file_size
        } else {
            c
        },
        None => 0,
    };
    let o: i64 = match offset {
        Some(o) => o,
        None => 0,
    };
    let target: i128 = (c as i128) + (o as i128);
    let start: u64 = if target < 0 {
        0
    } else if target > (file_size as i128) {
        file_size
    } else {
        target as u64
    };
    let remaining = file_size - start;
    let read_len = if max_len < remaining {
        max_len
    } else {
        remaining
    };
    LogWindow { start, read_len }
}

/// A chunk starts at the cursor moved by the offset: with neither it
/// starts at the beginning, a cursor inside the file is kept as it is, an
/// offset moves it by exactly that much while that stays inside the file,
/// and a start never lies outside the file.
pub proof fn lemma_chunk_start_follows_cursor(file_size: u64)
    ensures
        chunk_start(file_size, None, None) == 0,
        forall|c: u64| c <= file_size ==> #[trigger] chunk_start(file_size, Some(c), None) == c,
        forall|c: u64, o: i64|
            c <= file_size && 0 <= c + o <= file_size ==> #[trigger] chunk_start(file_size, Some(c), Some(o)) == c + o,
        forall|o: i64| 0 <= o <= file_size ==> #[trigger] chunk_start(file_size, None, Some(o)) == o,
        forall|c: Option<u64>, o: Option<i64>| 0 <= #[trigger] chunk_start(file_size, c, o) <= file_size,
{
}

/// The chunk size is the size asked for whenever that lies within
/// `MIN_LOG_CHUNK..=MAX_LOG_CHUNK`; a size asked for below or above that
/// range is raised or lowered to its nearest end, and no size asked for
/// means `DEFAULT_LOG_CHUNK`. So a window reads the size asked for, or
/// the rest of the file when less is left.
pub proof fn lemma_requested_chunk_size_kept(file_size: u64, start: int)
    requires
        0 <= start <= file_size,
    ensures
        forall|l: usize| MIN_LOG_CHUNK <= l <= MAX_LOG_CHUNK ==> #[trigger] chunk_limit(Some(l)) == l,
        forall|l: usize| l < MIN_LOG_CHUNK ==> #[trigger] chunk_limit(Some(l)) == MIN_LOG_CHUNK,
        forall|l: usize| l > MAX_LOG_CHUNK ==> #[trigger] chunk_limit(Some(l)) == MAX_LOG_CHUNK,
        chunk_limit(None) == DEFAULT_LOG_CHUNK,
        forall|o: Option<usize>| MIN_LOG_CHUNK <= #[trigger] chunk_limit(o) <= MAX_LOG_CHUNK,
        forall|l: usize|
            MIN_LOG_CHUNK <= l <= MAX_LOG_CHUNK ==> (if #[trigger] chunk_limit(Some(l)) < file_size - start {
                chunk_limit(Some(l))
            } else {
                file_size - start
            }) == (if l < file_size - start {
                l as int
            } else {
                file_size - start
            }),
{
}

/// How a chunk read ends: how many of the read bytes are kept (the longest
/// prefix that ends with a whole character), the cursor after them, and
/// whether that cursor reached the end of the file.
#[derive(Debug, Clone, Copy, PartialEq, Eq)]
pub struct LogChunkEnd {
    pub keep: usize,
    pub cursor: u64,
    pub complete: bool,
}

/// Closes a chunk read of `read` starting at byte `start` of a file of
/// `file_size` bytes.
pub fn finish_log_chunk(start: u64, file_size: u64, read: &[u8]) -> (end: LogChunkEnd)
    requires
        start + read@.len() <= file_size,
    ensures
        end.keep <= read@.len(),
        ends_whole(read@, end.keep as int),
        forall|j: int| end.keep < j <= read@.len() ==> !ends_whole(read@, j),
        end.cursor == start + end.keep,
        end.cursor <= file_size,
        end.complete == (end.cursor >= file_size),
{
    let keep = find_utf8_boundary(read);
    let cursor = start + (keep as u64);
    LogChunkEnd { keep, cursor, complete: cursor >= file_size }
}

} // verus!
