use vstd::prelude::*;

use crate::scan::{chars_eq, pieces_view, split_chars, split_spec};
use crate::text::{chars_of, string_from_chars};

verus! {

/// A path piece that names a directory or file (a normal component): not
/// empty, not `.` and not `..`.
pub open spec fn is_normal_piece(piece: Seq<char>) -> bool {
    piece.len() > 0 && piece != seq!['.'] && piece != seq!['.', '.']
}

/// The normal components of the pieces, in order.
pub open spec fn normal_pieces(pieces: Seq<Seq<char>>) -> Seq<Seq<char>>
    decreases pieces.len(),
{
    if pieces.len() == 0 {
        seq![]
    } else if is_normal_piece(pieces.last()) {
        normal_pieces(pieces.drop_last()).push(pieces.last())
    } else {
        normal_pieces(pieces.drop_last())
    }
}

/// The pieces joined with '/'.
pub open spec fn join_slash(pieces: Seq<Seq<char>>) -> Seq<char>
    decreases pieces.len(),
{
    if pieces.len() == 0 {
        seq![]
    } else if pieces.len() == 1 {
        pieces[0]
    } else {
        join_slash(pieces.drop_last()) + seq!['/'] + pieces.last()
    }
}

/// A relative path reduced to its normal components: what remains of an
/// uploaded path once root, `.` and `..` components are dropped.
pub open spec fn sanitized_path(path: Seq<char>) -> Seq<char> {
    join_slash(normal_pieces(split_spec(path, '/')))
}

fn normal_pieces_exec(pieces: &Vec<Vec<char>>) -> (res: Vec<Vec<char>>)
    ensures
        pieces_view(res@) == normal_pieces(pieces_view(pieces@)),
{
    let mut out: Vec<Vec<char>> = Vec::new();
    let mut i: usize = 0;
    while i < pieces.len()
        invariant
            i <= pieces@.len(),
            pieces_view(out@) == normal_pieces(pieces_view(pieces@).take(i as int)),
        decreases pieces@.len() - i,
    {
        let piece = &pieces[i];
        let ghost pv = pieces_view(pieces@);
        proof {
            let t = pv.take(i + 1);
            assert(t.drop_last() =~= pv.take(i as int));
            assert(t.last() == piece@);
        }
        let normal = if piece.len() == 0 {
            false
        } else if piece.len() == 1 && piece[0] == '.' {
            proof {
                assert(piece@ =~= seq!['.']);
            }
            false
        } else if piece.len() == 2 && piece[0] == '.' && piece[1] == '.' {
            proof {
                assert(piece@ =~= seq!['.', '.']);
            }
            false
        } else {
            proof {
                if piece@ == seq!['.'] {
                    assert(piece@[0] == '.');
                }
                if piece@ == seq!['.', '.'] {
                    assert(piece@[0] == '.' && piece@[1] == '.');
                }
            }
            true
        };
        if normal {
            let ghost before = out@;
            out.push(piece.clone());
            assert(pieces_view(out@) =~= pieces_view(before).push(piece@));
        }
        i = i + 1;
    }
    assert(pieces_view(pieces@).take(pieces@.len() as int) =~= pieces_view(pieces@));
    out
}

fn join_slash_exec(pieces: &Vec<Vec<char>>) -> (res: Vec<char>)
    ensures
        res@ == join_slash(pieces_view(pieces@)),
{
    let mut out: Vec<char> = Vec::new();
    let mut i: usize = 0;
    while i < pieces.len()
        invariant
            i <= pieces@.len(),
            out@ == join_slash(pieces_view(pieces@).take(i as int)),
        decreases pieces@.len() - i,
    {
        let ghost pv = pieces_view(pieces@);
        let ghost before = out@;
        if i > 0 {
            out.push('/');
        }
        let piece = &pieces[i];
        let mut k: usize = 0;
        let ghost base = out@;
        while k < piece.len()
            invariant
                k <= piece@.len(),
                out@ == base + piece@.take(k as int),
            decreases piece@.len() - k,
        {
            out.push(piece[k]);
            assert(out@ =~= base + piece@.take(k as int + 1));
            k = k + 1;
        }
        proof {
            let t = pv.take(i + 1);
            assert(t.drop_last() =~= pv.take(i as int));
            assert(t.last() == piece@);
            assert(piece@.take(piece@.len() as int) =~= piece@);
            if i == 0 {
                assert(t.len() == 1);
                assert(out@ =~= piece@);
            } else {
                assert(out@ =~= before + seq!['/'] + piece@);
            }
        }
        i = i + 1;
    }
    assert(pieces_view(pieces@).take(pieces@.len() as int) =~= pieces_view(pieces@));
    out
}

/// Reduces an uploaded relative path to its normal components, so that it
/// cannot leave the directory it is placed in.
pub fn sanitize_relative_path(relative_path: &str) -> (res: String)
    ensures
        res@ == sanitized_path(relative_path@),
{
    let chars = chars_of(relative_path);
    let pieces = split_chars(&chars, '/');
    let normal = normal_pieces_exec(&pieces);
    let joined = join_slash_exec(&normal);
    string_from_chars(&joined)
}

/// Why a repository file path was refused.
#[derive(Debug, Clone, Copy, PartialEq, Eq)]
pub enum RepoPathError {
    Empty,
    InvalidComponents,
}

impl RepoPathError {
    /// The message the daemon reports for this refusal.
    pub fn message(&self) -> (res: &'static str)
        ensures
            res@ == match *self {
                RepoPathError::Empty => "repository path must not be empty"@,
                RepoPathError::InvalidComponents => "repository path contains invalid components"@,
            },
    {
        match self {
            RepoPathError::Empty => "repository path must not be empty",
            RepoPathError::InvalidComponents => "repository path contains invalid components",
        }
    }
}

/// Number of '/' characters at the front of `s`.
pub open spec fn leading_slashes(s: Seq<char>) -> nat
    decreases s.len(),
{
    if s.len() > 0 && s[0] == '/' {
        1 + leading_slashes(s.drop_first())
    } else {
        0
    }
}

/// Whether a path relative to the repository root has a component other
/// than a normal one: a leading `.`, or a `..` anywhere.
pub open spec fn has_invalid_component(path: Seq<char>) -> bool {
    let pieces = split_spec(path, '/');
    pieces[0] == seq!['.'] || exists|k: int| 0 <= k < pieces.len() && #[trigger] pieces[k] == seq!['.', '.']
}

/// What `normalize_repo_path` decides for a requested path.
pub open spec fn normalized_repo_path(path: Seq<char>) -> Result<Seq<char>, RepoPathError> {
    let trimmed = path.skip(leading_slashes(path) as int);
    if trimmed.len() == 0 {
        Err(RepoPathError::Empty)
    } else if has_invalid_component(trimmed) {
        Err(RepoPathError::InvalidComponents)
    } else {
        Ok(trimmed)
    }
}

/// Resolves a requested repository file path: leading slashes are dropped,
/// and the rest must be non-empty and made of normal components only (an
/// inner `.` is tolerated).
pub fn normalize_repo_path(path: &str) -> (res: Result<String, RepoPathError>)
    ensures
        match res {
            Ok(s) => normalized_repo_path(path@) == Ok::<Seq<char>, RepoPathError>(s@),
            Err(e) => normalized_repo_path(path@) == Err::<Seq<char>, RepoPathError>(e),
        },
{
    let chars = chars_of(path);
    let mut start: usize = 0;
    assert(chars@.skip(0) =~= chars@);
    while start < chars.len() && chars[start] == '/'
        invariant
            start <= chars@.len(),
            leading_slashes(chars@) == start + leading_slashes(chars@.skip(start as int)),
        decreases chars@.len() - start,
    {
        assert(chars@.skip(start as int).drop_first() =~= chars@.skip(start + 1));
        start = start + 1;
    }
    let mut trimmed: Vec<char> = Vec::new();
    let mut i: usize = start;
    while i < chars.len()
        invariant
            start <= i <= chars@.len(),
            trimmed@ == chars@.subrange(start as int, i as int),
        decreases chars@.len() - i,
    {
        trimmed.push(chars[i]);
        assert(trimmed@ =~= chars@.subrange(start as int, i + 1));
        i = i + 1;
    }
    assert(trimmed@ =~= path@.skip(leading_slashes(path@) as int));
    if trimmed.len() == 0 {
        return Err(RepoPathError::Empty);
    }
    let pieces = split_chars(&trimmed, '/');
    let ghost pv = pieces_view(pieces@);
    proof {
        crate::scan::lemma_split_nonempty(trimmed@, '/', seq![]);
    }
    assert(pieces@[0]@ == pv[0]);
    if pieces[0].len() == 1 && pieces[0][0] == '.' {
        assert(pv[0] =~= seq!['.']);
        return Err(RepoPathError::InvalidComponents);
    }
    assert(pv[0] != seq!['.']) by {
        if pv[0] == seq!['.'] {
            assert(pieces@[0]@[0] == '.');
        }
    }
    let mut k: usize = 0;
    while k < pieces.len()
        invariant
            k <= pieces@.len(),
            pv == pieces_view(pieces@),
            pv == split_spec(trimmed@, '/'),
            trimmed@ == path@.skip(leading_slashes(path@) as int),
            trimmed@.len() > 0,
            forall|j: int| 0 <= j < k ==> #[trigger] pv[j] != seq!['.', '.'],
        decreases pieces@.len() - k,
    {
        let piece = &pieces[k];
        assert(piece@ == pv[k as int]);
        if piece.len() == 2 && piece[0] == '.' && piece[1] == '.' {
            assert(pv[k as int] =~= seq!['.', '.']);
            return Err(RepoPathError::InvalidComponents);
        }
        assert(pv[k as int] != seq!['.', '.']) by {
            if pv[k as int] == seq!['.', '.'] {
                assert(piece@[0] == '.' && piece@[1] == '.');
            }
        }
        k = k + 1;
    }
    Ok(string_from_chars(&trimmed))
}

/// The pieces between separators that are components: all but empty and
/// `.` pieces.
pub open spec fn body_components(pieces: Seq<Seq<char>>) -> Seq<Seq<char>>
    decreases pieces.len(),
{
    if pieces.len() == 0 {
        seq![]
    } else if pieces.last().len() == 0 || pieces.last() == seq!['.'] {
        body_components(pieces.drop_last())
    } else {
        body_components(pieces.drop_last()).push(pieces.last())
    }
}

/// The components of a Unix path, as `Path::components` lists them: a
/// leading `/` (the root), else a leading `.` that stands alone (the
/// current directory), then the pieces between separators without empty
/// and `.` pieces.
pub open spec fn path_components(path: Seq<char>) -> Seq<Seq<char>> {
    let lead: Seq<Seq<char>> = if path.len() > 0 && path[0] == '/' {
        seq![seq!['/']]
    } else if path.len() > 0 && path[0] == '.' && (path.len() == 1 || path[1] == '/') {
        seq![seq!['.']]
    } else {
        seq![]
    };
    lead + body_components(split_spec(path, '/'))
}

/// Whether `base`'s components open `path`'s, as `Path::starts_with` asks.
pub open spec fn path_starts_with_spec(path: Seq<char>, base: Seq<char>) -> bool {
    let p = path_components(path);
    let b = path_components(base);
    b.len() <= p.len() && p.take(b.len() as int) == b
}

fn components_of(path: &str) -> (res: Vec<Vec<char>>)
    ensures
        pieces_view(res@) == path_components(path@),
{
    let chars = chars_of(path);
    let pieces = split_chars(&chars, '/');
    let ghost pv = pieces_view(pieces@);
    let mut out: Vec<Vec<char>> = Vec::new();
    if chars.len() > 0 && chars[0] == '/' {
        let mut root: Vec<char> = Vec::new();
        root.push('/');
        assert(root@ =~= seq!['/']);
        out.push(root);
    } else if chars.len() > 0 && chars[0] == '.' && (chars.len() == 1 || chars[1] == '/') {
        let mut cur: Vec<char> = Vec::new();
        cur.push('.');
        assert(cur@ =~= seq!['.']);
        out.push(cur);
    }
    let ghost lead = pieces_view(out@);
    assert(lead =~= path_components(path@).take(lead.len() as int)) by {
        if chars@.len() > 0 && chars@[0] == '/' {
            assert(lead =~= seq![seq!['/']]);
        } else if chars@.len() > 0 && chars@[0] == '.' && (chars@.len() == 1 || chars@[1] == '/') {
            assert(lead =~= seq![seq!['.']]);
        } else {
            assert(lead =~= Seq::<Seq<char>>::empty());
        }
    }
    let mut i: usize = 0;
    while i < pieces.len()
        invariant
            i <= pieces@.len(),
            pv == pieces_view(pieces@),
            pv == split_spec(path@, '/'),
            pieces_view(out@) == lead + body_components(pv.take(i as int)),
            path_components(path@) == lead + body_components(pv),
        decreases pieces@.len() - i,
    {
        let piece = &pieces[i];
        proof {
            let t = pv.take(i + 1);
            assert(t.drop_last() =~= pv.take(i as int));
            assert(t.last() == piece@);
        }
        let skip = if piece.len() == 0 {
            true
        } else if piece.len() == 1 && piece[0] == '.' {
            assert(piece@ =~= seq!['.']);
            true
        } else {
            assert(piece@ != seq!['.']) by {
                if piece@ == seq!['.'] {
                    assert(piece@[0] == '.');
                }
            }
            false
        };
        if !skip {
            let ghost before = out@;
            out.push(piece.clone());
            assert(pieces_view(out@) =~= pieces_view(before).push(piece@));
        }
        i = i + 1;
    }
    assert(pv.take(pieces@.len() as int) =~= pv);
    out
}

/// Whether `path` lies under `base`, compared by components as
/// `Path::starts_with` does.
pub fn path_starts_with(path: &str, base: &str) -> (res: bool)
    ensures
        res == path_starts_with_spec(path@, base@),
{
    let p = components_of(path);
    let b = components_of(base);
    let ghost pv = pieces_view(p@);
    let ghost bv = pieces_view(b@);
    assert(pv.len() == p@.len() && bv.len() == b@.len());
    if b.len() > p.len() {
        return false;
    }
    let mut i: usize = 0;
    while i < b.len()
        invariant
            i <= b@.len(),
            b@.len() <= p@.len(),
            pv == pieces_view(p@),
            bv == pieces_view(b@),
            pv == path_components(path@),
            bv == path_components(base@),
            forall|k: int| 0 <= k < i ==> pv[k] == bv[k],
        decreases b@.len() - i,
    {
        assert(p@[i as int]@ == pv[i as int] && b@[i as int]@ == bv[i as int]);
        if !chars_eq(&p[i], b[i].as_slice()) {
            assert(pv.take(bv.len() as int)[i as int] == pv[i as int]);
            assert(pv.take(bv.len() as int)[i as int] != bv[i as int]);
            return false;
        }
        i = i + 1;
    }
    assert(pv.take(bv.len() as int) =~= bv);
    true
}

/// Whether two paths name the same place component by component, as
/// `Path` equality does.
pub open spec fn same_path(a: Seq<char>, b: Seq<char>) -> bool {
    path_components(a) == path_components(b)
}

/// The first of the paths equal, as a `Path`, to `wanted`.
pub fn find_path(paths: &Vec<String>, wanted: &str) -> (res: Option<usize>)
    ensures
        match res {
            Some(i) => i < paths@.len() && same_path(paths@[i as int]@, wanted@) && forall|k: int|
                0 <= k < i ==> !same_path(#[trigger] paths@[k]@, wanted@),
            None => forall|k: int| 0 <= k < paths@.len() ==> !same_path(#[trigger] paths@[k]@, wanted@),
        },
{
    let w = components_of(wanted);
    let ghost wv = pieces_view(w@);
    let mut i: usize = 0;
    while i < paths.len()
        invariant
            i <= paths@.len(),
            wv == pieces_view(w@),
            wv == path_components(wanted@),
            forall|k: int| 0 <= k < i ==> !same_path(#[trigger] paths@[k]@, wanted@),
        decreases paths@.len() - i,
    {
        let c = components_of(paths[i].as_str());
        let ghost cv = pieces_view(c@);
        let mut equal = c.len() == w.len();
        assert(cv.len() == c@.len() && wv.len() == w@.len());
        let mut k: usize = 0;
        while equal && k < c.len()
            invariant
                cv == pieces_view(c@),
                wv == pieces_view(w@),
                equal ==> c@.len() == w@.len(),
                k <= c@.len(),
                equal ==> forall|j: int| 0 <= j < k ==> cv[j] == wv[j],
                !equal ==> cv != wv,
            decreases c@.len() - k,
        {
            assert(c@[k as int]@ == cv[k as int] && w@[k as int]@ == wv[k as int]);
            if !chars_eq(&c[k], w[k].as_slice()) {
                equal = false;
            }
            k = k + 1;
        }
        if equal {
            assert(cv =~= wv);
            return Some(i);
        }
        i = i + 1;
    }
    None
}

proof fn lemma_normal_pieces_are_normal(pieces: Seq<Seq<char>>)
    ensures
        forall|i: int| 0 <= i < normal_pieces(pieces).len() ==> is_normal_piece(#[trigger] normal_pieces(pieces)[i]),
        forall|i: int|
            0 <= i < normal_pieces(pieces).len() ==> exists|j: int| 0 <= j < pieces.len() && #[trigger] normal_pieces(pieces)[i]
                == pieces[j],
    decreases pieces.len(),
{
    if pieces.len() > 0 {
        lemma_normal_pieces_are_normal(pieces.drop_last());
        let rest = normal_pieces(pieces.drop_last());
        assert forall|i: int| 0 <= i < normal_pieces(pieces).len() implies exists|j: int|
            0 <= j < pieces.len() && #[trigger] normal_pieces(pieces)[i] == pieces[j] by {
            if i < rest.len() {
                let j = choose|j: int| 0 <= j < pieces.drop_last().len() && rest[i] == pieces.drop_last()[j];
                assert(normal_pieces(pieces)[i] == pieces[j]);
            } else {
                assert(normal_pieces(pieces)[i] == pieces[pieces.len() - 1]);
            }
        }
    }
}

proof fn lemma_normal_pieces_keep_normal(pieces: Seq<Seq<char>>)
    requires
        forall|i: int| 0 <= i < pieces.len() ==> is_normal_piece(#[trigger] pieces[i]),
    ensures
        normal_pieces(pieces) == pieces,
    decreases pieces.len(),
{
    if pieces.len() > 0 {
        lemma_normal_pieces_keep_normal(pieces.drop_last());
        assert(is_normal_piece(pieces[pieces.len() - 1]));
        assert(pieces.drop_last().push(pieces.last()) =~= pieces);
    }
}

proof fn lemma_split_join(pieces: Seq<Seq<char>>)
    requires
        pieces.len() > 0,
        forall|i: int| 0 <= i < pieces.len() ==> !(#[trigger] pieces[i]).contains('/'),
    ensures
        split_spec(join_slash(pieces), '/') == pieces,
    decreases pieces.len(),
{
    if pieces.len() == 1 {
        assert(!pieces[0].contains('/'));
        crate::scan::lemma_split_single(pieces[0], '/', seq![]);
        assert(seq![] + pieces[0] =~= pieces[0]);
        assert(seq![pieces[0]] =~= pieces);
    } else {
        let front = pieces.drop_last();
        lemma_split_join(front);
        assert(!pieces.last().contains('/'));
        crate::scan::lemma_split_concat(join_slash(front), pieces.last(), '/', seq![]);
        crate::scan::lemma_split_single(pieces.last(), '/', seq![]);
        assert(seq![] + pieces.last() =~= pieces.last());
        assert(join_slash(pieces) == join_slash(front) + seq!['/'] + pieces.last());
        assert(front + seq![pieces.last()] =~= pieces);
    }
}

/// A sanitized upload path stays inside its directory: every component it
/// has is a name (no root, `.` or `..`), and sanitizing it again changes
/// nothing.
pub proof fn lemma_sanitized_path_confined(path: Seq<char>)
    ensures
        sanitized_path(path).len() > 0 ==> forall|i: int|
            0 <= i < split_spec(sanitized_path(path), '/').len() ==> is_normal_piece(
                #[trigger] split_spec(sanitized_path(path), '/')[i],
            ),
        sanitized_path(sanitized_path(path)) == sanitized_path(path),
{
    let raw = split_spec(path, '/');
    let ps = normal_pieces(raw);
    lemma_normal_pieces_are_normal(raw);
    crate::scan::lemma_split_pieces_free(path, '/', seq![]);
    assert forall|i: int| 0 <= i < ps.len() implies !(#[trigger] ps[i]).contains('/') by {
        let j = choose|j: int| 0 <= j < raw.len() && ps[i] == raw[j];
        assert(!raw[j].contains('/'));
    }
    if ps.len() > 0 {
        lemma_split_join(ps);
        lemma_normal_pieces_keep_normal(ps);
    } else {
        assert(join_slash(ps) =~= Seq::<char>::empty());
        assert(split_spec(Seq::<char>::empty(), '/') =~= seq![Seq::<char>::empty()]);
        let single = seq![Seq::<char>::empty()];
        assert(single.last() == Seq::<char>::empty());
        assert(!is_normal_piece(single.last()));
        assert(single.drop_last() =~= Seq::<Seq<char>>::empty());
        assert(normal_pieces(single.drop_last()) =~= Seq::<Seq<char>>::empty());
        assert(normal_pieces(single) =~= Seq::<Seq<char>>::empty());
    }
}

} // verus!
