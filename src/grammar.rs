use vstd::prelude::*;

use crate::tree::{ErrorKind, SegmentModel};

verus! {

/// The result of a production at the spec level: a value and the position after it,
/// or an error kind and the position where it arose.
pub type Outcome<T> = Result<(T, int), (ErrorKind, int)>;

/// ASCII letters and decimal digits.
pub open spec fn is_alnum(c: char) -> bool {
    ('a' <= c && c <= 'z') || ('A' <= c && c <= 'Z') || ('0' <= c && c <= '9')
}

/// Space, tab, carriage return and line feed.
pub open spec fn is_ws(c: char) -> bool {
    c == ' ' || c == '\t' || c == '\r' || c == '\n'
}

/// The number of alphanumeric characters starting at `p`.
pub open spec fn alnum_len(s: Seq<char>, p: int) -> nat
    decreases s.len() - p,
{
    if 0 <= p < s.len() && is_alnum(s[p]) {
        1 + alnum_len(s, p + 1)
    } else {
        0
    }
}

/// The number of whitespace characters starting at `p`.
pub open spec fn ws_len(s: Seq<char>, p: int) -> nat
    decreases s.len() - p,
{
    if 0 <= p < s.len() && is_ws(s[p]) {
        1 + ws_len(s, p + 1)
    } else {
        0
    }
}

/// The first position at or after `p` that does not hold whitespace.
pub open spec fn skip_ws(s: Seq<char>, p: int) -> int {
    p + ws_len(s, p)
}

pub proof fn lemma_ws_len_bound(s: Seq<char>, p: int)
    requires
        0 <= p <= s.len(),
    ensures
        p + ws_len(s, p) <= s.len(),
        forall|k: int| p <= k < p + ws_len(s, p) ==> is_ws(#[trigger] s[k]),
        p + ws_len(s, p) < s.len() ==> !is_ws(s[p + ws_len(s, p)]),
    decreases s.len() - p,
{
    if p < s.len() && is_ws(s[p]) {
        lemma_ws_len_bound(s, p + 1);
    }
}

pub proof fn lemma_alnum_len_bound(s: Seq<char>, p: int)
    requires
        0 <= p <= s.len(),
    ensures
        p + alnum_len(s, p) <= s.len(),
        forall|k: int| p <= k < p + alnum_len(s, p) ==> is_alnum(#[trigger] s[k]),
        p + alnum_len(s, p) < s.len() ==> !is_alnum(s[p + alnum_len(s, p)]),
    decreases s.len() - p,
{
    if p < s.len() && is_alnum(s[p]) {
        lemma_alnum_len_bound(s, p + 1);
    }
}

/// Expects the character `c` at `p`.
pub open spec fn expect_char(s: Seq<char>, p: int, c: char) -> Result<int, (ErrorKind, int)> {
    if p < 0 || p >= s.len() {
        Err((ErrorKind::UnexpectedEnd, p))
    } else if s[p] == c {
        Ok(p + 1)
    } else {
        Err((ErrorKind::UnexpectedToken, p))
    }
}

/// The path separator `::` stands at `p`.
pub open spec fn has_sep(s: Seq<char>, p: int) -> bool {
    0 <= p && p + 2 <= s.len() && s[p] == ':' && s[p + 1] == ':'
}

/// A one-or-more list whose first element failed on an unexpected character
/// reports that it matched nothing.
pub open spec fn list_error(e: (ErrorKind, int)) -> (ErrorKind, int) {
    if e.0 == ErrorKind::UnexpectedToken {
        (ErrorKind::EmptyList, e.1)
    } else {
        e
    }
}

/// `atom := ALPHANUMERIC+`, taking the longest run.
pub open spec fn spec_atom(s: Seq<char>, p: int) -> Outcome<SegmentModel> {
    if p < 0 || p >= s.len() {
        Err((ErrorKind::UnexpectedEnd, p))
    } else if !is_alnum(s[p]) {
        Err((ErrorKind::UnexpectedToken, p))
    } else {
        let e = p + alnum_len(s, p);
        Ok((SegmentModel::Atom(s.subrange(p, e)), e))
    }
}

/// `path := segment ("::" segment)*`, taking as many segments as parse.
/// A segment always ends after it starts (see `lemma_segment_wf`); the test `p < e`
/// states that here so that the recursion visibly terminates.
pub open spec fn spec_path(s: Seq<char>, p: int) -> Outcome<Seq<SegmentModel>>
    decreases s.len() - p, 2int,
{
    match spec_segment(s, p) {
        Err(x) => Err(list_error(x)),
        Ok((g, e)) => {
            if p < e && has_sep(s, e) {
                match spec_path(s, e + 2) {
                    Ok((rest, f)) => Ok((seq![g] + rest, f)),
                    Err(_) => Ok((seq![g], e)),
                }
            } else {
                Ok((seq![g], e))
            }
        },
    }
}

/// `segment := "*" | atom | multiple`, tried in that order.
pub open spec fn spec_segment(s: Seq<char>, p: int) -> Outcome<SegmentModel>
    decreases s.len() - p, 1int,
{
    if 0 <= p < s.len() && s[p] == '*' {
        Ok((SegmentModel::Wildcard, p + 1))
    } else if 0 <= p < s.len() && is_alnum(s[p]) {
        spec_atom(s, p)
    } else {
        spec_multiple(s, p)
    }
}

/// `multiple := WS "{" WS path (WS "," WS path)* WS "}" WS`.
pub open spec fn spec_multiple(s: Seq<char>, p: int) -> Outcome<SegmentModel>
    decreases s.len() - p, 0int,
{
    if p < 0 || p > s.len() {
        Err((ErrorKind::UnexpectedEnd, p))
    } else {
        let q = skip_ws(s, p);
        match expect_char(s, q, '{') {
            Err(x) => Err(x),
            Ok(_) => {
                proof {
                    lemma_ws_len_bound(s, p);
                    lemma_ws_len_bound(s, q + 1);
                }
                let r = skip_ws(s, q + 1);
                match spec_alternatives(s, r) {
                    Err(x) => Err(list_error(x)),
                    Ok((alts, e)) => {
                        let c = skip_ws(s, e);
                        match expect_char(s, c, '}') {
                            Err(x) => Err(x),
                            Ok(_) => Ok((SegmentModel::Multiple(alts), skip_ws(s, c + 1))),
                        }
                    },
                }
            },
        }
    }
}

/// `path (WS "," WS path)*`, taking as many paths as parse.
/// As in `spec_path`, the test `r < e` always holds and shows termination.
pub open spec fn spec_alternatives(s: Seq<char>, r: int) -> Outcome<Seq<Seq<SegmentModel>>>
    decreases s.len() - r, 3int,
{
    match spec_path(s, r) {
        Err(x) => Err(x),
        Ok((ph, e)) => {
            let q = skip_ws(s, e);
            if r < e && 0 <= q < s.len() && s[q] == ',' {
                proof {
                    lemma_ws_len_bound(s, q + 1);
                }
                match spec_alternatives(s, skip_ws(s, q + 1)) {
                    Ok((rest, f)) => Ok((seq![ph] + rest, f)),
                    Err(_) => Ok((seq![ph], e)),
                }
            } else {
                Ok((seq![ph], e))
            }
        },
    }
}

/// The sentinel that opens an import line.
pub open spec fn sentinel() -> Seq<char> {
    seq![':', 'u', 's', 'e']
}

/// `import := ":use" WS path`; what follows the path is not examined.
pub open spec fn spec_import(s: Seq<char>) -> Result<Seq<SegmentModel>, (ErrorKind, int)> {
    if s.len() >= 4 && s.subrange(0, 4) == sentinel() {
        match spec_path(s, skip_ws(s, 4)) {
            Ok((p, _)) => Ok(p),
            Err(x) => Err(x),
        }
    } else if s.len() < 4 && sentinel().subrange(0, s.len() as int) == s {
        Err((ErrorKind::UnexpectedEnd, s.len() as int))
    } else {
        Err((ErrorKind::UnexpectedToken, 0))
    }
}

} // verus!
