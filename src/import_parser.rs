use vstd::prelude::*;
use vstd::string::StrSliceExecFns;

use crate::grammar::{
    alnum_len, is_alnum, is_ws, lemma_alnum_len_bound, lemma_ws_len_bound, list_error, sentinel,
    skip_ws, spec_alternatives, spec_atom, spec_import, spec_multiple, spec_path, spec_segment,
    ws_len, Outcome,
};
use crate::laws::{lemma_import_wf, lemma_path_wf, wf_path};
use crate::tree::{ErrorKind, ParseError, Path, Segment, SegmentModel};

verus! {

broadcast use vstd::string::axiom_spec_iter;

/// An input line together with its characters, for indexed access.
pub struct Source<'a> {
    pub text: &'a str,
    pub chars: Vec<char>,
}

impl<'a> Source<'a> {
    /// `chars` holds the characters of `text`.
    pub open spec fn wf(&self) -> bool {
        self.chars@ == self.text@
    }

    pub fn new(text: &'a str) -> (r: Source<'a>)
        ensures
            r.wf(),
            r.text == text,
    {
        let mut chars: Vec<char> = Vec::new();
        for c in it: text.chars()
            invariant
                chars@ == it.seq().take(it.index() as int),
                it.seq() == text@,
        {
            chars.push(c);
        }
        assert(chars@ =~= text@);
        Source { text, chars }
    }
}

/// The spec-level outcome that a segment parse result stands for.
pub open spec fn segment_outcome<'a>(r: Result<(Segment<'a>, usize), ParseError>) -> Outcome<
    SegmentModel,
> {
    match r {
        Ok((g, e)) => Ok((g@, e as int)),
        Err(x) => Err(x@),
    }
}

/// The spec-level outcome that a path parse result stands for.
pub open spec fn path_outcome<'a>(r: Result<(Path<'a>, usize), ParseError>) -> Outcome<
    Seq<SegmentModel>,
> {
    match r {
        Ok((ph, e)) => Ok((ph@, e as int)),
        Err(x) => Err(x@),
    }
}

/// The models of a list of paths.
pub open spec fn paths_view<'a>(v: Seq<Path<'a>>) -> Seq<Seq<SegmentModel>> {
    Seq::new(v.len(), |i: int| v[i]@)
}

/// The spec-level outcome that a parse result for a list of alternatives stands for.
pub open spec fn alternatives_outcome<'a>(r: Result<(Vec<Path<'a>>, usize), ParseError>) -> Outcome<
    Seq<Seq<SegmentModel>>,
> {
    match r {
        Ok((v, e)) => Ok((paths_view(v@), e as int)),
        Err(x) => Err(x@),
    }
}

/// The position just past a successful parse.
pub open spec fn advances<T>(r: Result<(T, usize), ParseError>, p: int, len: int) -> bool {
    r matches Ok((_, e)) ==> p < e <= len
}

fn is_alnum_char(c: char) -> (b: bool)
    ensures
        b == is_alnum(c),
{
    ('a' <= c && c <= 'z') || ('A' <= c && c <= 'Z') || ('0' <= c && c <= '9')
}

fn is_ws_char(c: char) -> (b: bool)
    ensures
        b == is_ws(c),
{
    c == ' ' || c == '\t' || c == '\r' || c == '\n'
}

fn list_failure(x: ParseError) -> (r: ParseError)
    ensures
        r@ == list_error(x@),
{
    match x.kind {
        ErrorKind::UnexpectedToken => ParseError { kind: ErrorKind::EmptyList, position: x.position },
        _ => x,
    }
}

fn failure_at(src: &Source, q: usize) -> (r: ParseError)
    requires
        src.wf(),
    ensures
        r@ == (if q >= src.text@.len() {
            (ErrorKind::UnexpectedEnd, q as int)
        } else {
            (ErrorKind::UnexpectedToken, q as int)
        }),
{
    if q >= src.chars.len() {
        ParseError { kind: ErrorKind::UnexpectedEnd, position: q }
    } else {
        ParseError { kind: ErrorKind::UnexpectedToken, position: q }
    }
}

/// Skips the whitespace that starts at `p`, returning the first position after it.
pub fn ws(src: &Source, p: usize) -> (r: usize)
    requires
        src.wf(),
        p <= src.text@.len(),
    ensures
        r == skip_ws(src.text@, p as int),
        p <= r <= src.text@.len(),
{
    let ghost s = src.text@;
    proof {
        lemma_ws_len_bound(s, p as int);
    }
    let mut q = p;
    while q < src.chars.len() && is_ws_char(src.chars[q])
        invariant
            src.wf(),
            s == src.text@,
            p <= q <= s.len(),
            p + ws_len(s, p as int) == q + ws_len(s, q as int),
        decreases s.len() - q,
    {
        q = q + 1;
    }
    q
}

/// Parses the longest run of ASCII letters and digits at `p` as an atom.
pub fn atom<'a>(src: &Source<'a>, p: usize) -> (r: Result<(Segment<'a>, usize), ParseError>)
    requires
        src.wf(),
        p <= src.text@.len(),
    ensures
        segment_outcome(r) == spec_atom(src.text@, p as int),
        advances(r, p as int, src.text@.len() as int),
{
    let ghost s = src.text@;
    if p >= src.chars.len() {
        return Err(ParseError { kind: ErrorKind::UnexpectedEnd, position: p });
    }
    if !is_alnum_char(src.chars[p]) {
        return Err(ParseError { kind: ErrorKind::UnexpectedToken, position: p });
    }
    proof {
        lemma_alnum_len_bound(s, p as int);
    }
    let mut e = p + 1;
    while e < src.chars.len() && is_alnum_char(src.chars[e])
        invariant
            src.wf(),
            s == src.text@,
            p < e <= s.len(),
            p + alnum_len(s, p as int) == e + alnum_len(s, e as int),
        decreases s.len() - e,
    {
        e = e + 1;
    }
    let t = src.text.substring_char(p, e);
    Ok((Segment::Atom(t), e))
}

/// Parses one segment at `p`: a wildcard, an atom or a brace group, in that order.
pub fn segment<'a>(src: &Source<'a>, p: usize) -> (r: Result<(Segment<'a>, usize), ParseError>)
    requires
        src.wf(),
        p <= src.text@.len(),
    ensures
        segment_outcome(r) == spec_segment(src.text@, p as int),
        advances(r, p as int, src.text@.len() as int),
    decreases src.text@.len() - p, 1int,
{
    if p < src.chars.len() && src.chars[p] == '*' {
        Ok((Segment::Wildcard, p + 1))
    } else if p < src.chars.len() && is_alnum_char(src.chars[p]) {
        atom(src, p)
    } else {
        multiple(src, p)
    }
}

/// Parses a `::`-separated list of segments at `p`, taking as many as parse.
pub fn path<'a>(src: &Source<'a>, p: usize) -> (r: Result<(Path<'a>, usize), ParseError>)
    requires
        src.wf(),
        p <= src.text@.len(),
    ensures
        path_outcome(r) == spec_path(src.text@, p as int),
        advances(r, p as int, src.text@.len() as int),
        r matches Ok((ph, _)) ==> wf_path(ph@),
    decreases src.text@.len() - p, 2int,
{
    let ghost s = src.text@;
    proof {
        lemma_path_wf(s, p as int);
    }
    match segment(src, p) {
        Err(x) => Err(list_failure(x)),
        Ok((g, e)) => {
            let ghost gv = g@;
            let len = src.chars.len();
            if e < len && len - e >= 2 && src.chars[e] == ':' && src.chars[e + 1] == ':' {
                match path(src, e + 2) {
                    Ok((rest, f)) => {
                        let ghost rv = rest@;
                        let mut v = vec![g];
                        let mut tail = rest.0;
                        v.append(&mut tail);
                        let res = Path(v);
                        assert(res@ =~= seq![gv] + rv);
                        Ok((res, f))
                    },
                    Err(_) => {
                        let res = Path(vec![g]);
                        assert(res@ =~= seq![gv]);
                        Ok((res, e))
                    },
                }
            } else {
                let res = Path(vec![g]);
                assert(res@ =~= seq![gv]);
                Ok((res, e))
            }
        },
    }
}

/// Parses a comma-separated list of paths at `r`, taking as many as parse.
fn alternatives<'a>(src: &Source<'a>, r: usize) -> (res: Result<(Vec<Path<'a>>, usize), ParseError>)
    requires
        src.wf(),
        r <= src.text@.len(),
    ensures
        alternatives_outcome(res) == spec_alternatives(src.text@, r as int),
        advances(res, r as int, src.text@.len() as int),
    decreases src.text@.len() - r, 3int,
{
    match path(src, r) {
        Err(x) => Err(x),
        Ok((ph, e)) => {
            let ghost pv = ph@;
            let q = ws(src, e);
            if q < src.chars.len() && src.chars[q] == ',' {
                let n = ws(src, q + 1);
                match alternatives(src, n) {
                    Ok((rest, f)) => {
                        let ghost rv = paths_view(rest@);
                        let mut v = vec![ph];
                        let mut tail = rest;
                        v.append(&mut tail);
                        assert(paths_view(v@) =~= seq![pv] + rv);
                        Ok((v, f))
                    },
                    Err(_) => {
                        let v = vec![ph];
                        assert(paths_view(v@) =~= seq![pv]);
                        Ok((v, e))
                    },
                }
            } else {
                let v = vec![ph];
                assert(paths_view(v@) =~= seq![pv]);
                Ok((v, e))
            }
        },
    }
}

/// Parses a brace group `{p1, p2, ...}` at `p`, with whitespace allowed around
/// the braces and the commas.
pub fn multiple<'a>(src: &Source<'a>, p: usize) -> (r: Result<(Segment<'a>, usize), ParseError>)
    requires
        src.wf(),
        p <= src.text@.len(),
    ensures
        segment_outcome(r) == spec_multiple(src.text@, p as int),
        advances(r, p as int, src.text@.len() as int),
    decreases src.text@.len() - p, 0int,
{
    let q = ws(src, p);
    if q >= src.chars.len() || src.chars[q] != '{' {
        return Err(failure_at(src, q));
    }
    let r = ws(src, q + 1);
    match alternatives(src, r) {
        Err(x) => Err(list_failure(x)),
        Ok((alts, e)) => {
            let c = ws(src, e);
            if c >= src.chars.len() || src.chars[c] != '}' {
                return Err(failure_at(src, c));
            }
            let end = ws(src, c + 1);
            let ghost av = paths_view(alts@);
            let res = Segment::Multiple(alts);
            assert(res@->Multiple_0 =~= av);
            Ok((res, end))
        },
    }
}

/// What a call of `import` on `i` returning `r` means: the result is the grammar's
/// outcome on the characters of `i`.
pub open spec fn import_result<'a>(i: &str, r: Result<Path<'a>, ParseError>) -> bool {
    match r {
        Ok(ph) => spec_import(i@) == Ok::<Seq<SegmentModel>, (ErrorKind, int)>(ph@),
        Err(x) => spec_import(i@) == Err::<Seq<SegmentModel>, (ErrorKind, int)>(x@),
    }
}

fn sentinel_char(k: usize) -> (c: char)
    requires
        k < 4,
    ensures
        c == sentinel()[k as int],
{
    if k == 0 {
        ':'
    } else if k == 1 {
        'u'
    } else if k == 2 {
        's'
    } else {
        'e'
    }
}

/// Parses an import line: the sentinel `:use`, whitespace, then a path.
/// Whatever follows the path is left unread.
pub fn import<'a>(i: &'a str) -> (r: Result<Path<'a>, ParseError>)
    ensures
        import_result(i, r),
        r matches Ok(ph) ==> wf_path(ph@),
{
    proof {
        lemma_import_wf(i@);
    }
    let src = Source::new(i);
    let len = src.chars.len();
    let m: usize = if len < 4 {
        len
    } else {
        4
    };
    let mut k: usize = 0;
    while k < m && src.chars[k] == sentinel_char(k)
        invariant
            src.wf(),
            src.text == i,
            len == i@.len(),
            m <= 4,
            m <= len,
            k <= m,
            forall|j: int| 0 <= j < k ==> i@[j] == sentinel()[j],
        decreases m - k,
    {
        k = k + 1;
    }
    if k < m {
        if len >= 4 {
            assert(i@.subrange(0, 4)[k as int] == i@[k as int]);
            assert(i@.subrange(0, 4) != sentinel());
        } else {
            assert(sentinel().subrange(0, len as int)[k as int] == sentinel()[k as int]);
            assert(sentinel().subrange(0, len as int) != i@);
        }
        return Err(ParseError { kind: ErrorKind::UnexpectedToken, position: 0 });
    }
    if len < 4 {
        assert(sentinel().subrange(0, len as int) =~= i@);
        return Err(ParseError { kind: ErrorKind::UnexpectedEnd, position: len });
    }
    assert(i@.subrange(0, 4) =~= sentinel());
    let start = ws(&src, 4);
    match path(&src, start) {
        Ok((ph, _)) => Ok(ph),
        Err(x) => Err(x),
    }
}

} // verus!
