use vstd::prelude::*;

use crate::grammar::{
    alnum_len, has_sep, is_alnum, is_ws, lemma_alnum_len_bound, lemma_ws_len_bound, sentinel,
    skip_ws, spec_alternatives, spec_atom, spec_import, spec_multiple, spec_path, spec_segment,
    ws_len, Outcome,
};
use crate::import_parser::import_result;
use crate::tree::{ErrorKind, ParseError, Path, SegmentModel};

verus! {

/// A well-formed segment: an atom holds one or more alphanumeric characters, and a
/// brace group holds one or more well-formed paths.
pub open spec fn wf_segment(g: SegmentModel) -> bool
    decreases g,
{
    match g {
        SegmentModel::Atom(t) => t.len() > 0 && forall|k: int| 0 <= k < t.len() ==> is_alnum(#[trigger] t[k]),
        SegmentModel::Wildcard => true,
        SegmentModel::Multiple(alts) => alts.len() > 0 && forall|i: int|
            0 <= i < alts.len() ==> wf_path(#[trigger] alts[i]),
    }
}

/// A well-formed path: one or more well-formed segments.
pub open spec fn wf_path(ph: Seq<SegmentModel>) -> bool
    decreases ph,
{
    ph.len() > 0 && forall|i: int| 0 <= i < ph.len() ==> wf_segment(#[trigger] ph[i])
}

/// Every successful parse of a segment yields a well-formed segment and consumes
/// at least one character.
pub proof fn lemma_segment_wf(s: Seq<char>, p: int)
    requires
        0 <= p <= s.len(),
    ensures
        spec_segment(s, p) matches Ok((g, e)) ==> wf_segment(g) && p < e <= s.len(),
    decreases s.len() - p, 1int,
{
    if 0 <= p < s.len() && s[p] == '*' {
    } else if 0 <= p < s.len() && is_alnum(s[p]) {
        lemma_alnum_len_bound(s, p);
        let e = p + alnum_len(s, p);
        let t = s.subrange(p, e);
        assert forall|k: int| 0 <= k < t.len() implies is_alnum(#[trigger] t[k]) by {
            assert(t[k] == s[p + k]);
        }
    } else {
        lemma_multiple_wf(s, p);
    }
}

/// Every successful parse of a path yields one or more well-formed segments and
/// consumes at least one character.
pub proof fn lemma_path_wf(s: Seq<char>, p: int)
    requires
        0 <= p <= s.len(),
    ensures
        spec_path(s, p) matches Ok((ph, e)) ==> wf_path(ph) && p < e <= s.len(),
    decreases s.len() - p, 2int,
{
    lemma_segment_wf(s, p);
    if let Ok((g, e)) = spec_segment(s, p) {
        if p < e && has_sep(s, e) {
            lemma_path_wf(s, e + 2);
            if let Ok((rest, f)) = spec_path(s, e + 2) {
                let ph = seq![g] + rest;
                assert forall|i: int| 0 <= i < ph.len() implies wf_segment(#[trigger] ph[i]) by {
                    if i > 0 {
                        assert(ph[i] == rest[i - 1]);
                    }
                }
            }
        }
    }
}

/// Every successful parse of a brace group yields one or more well-formed paths.
pub proof fn lemma_multiple_wf(s: Seq<char>, p: int)
    requires
        0 <= p <= s.len(),
    ensures
        spec_multiple(s, p) matches Ok((g, e)) ==> wf_segment(g) && p < e <= s.len(),
    decreases s.len() - p, 0int,
{
    let q = skip_ws(s, p);
    lemma_ws_len_bound(s, p);
    if q < s.len() && s[q] == '{' {
        lemma_ws_len_bound(s, q + 1);
        let r = skip_ws(s, q + 1);
        lemma_alternatives_wf(s, r);
        if let Ok((alts, e)) = spec_alternatives(s, r) {
            let c = skip_ws(s, e);
            lemma_ws_len_bound(s, e);
            if c < s.len() {
                lemma_ws_len_bound(s, c + 1);
            }
        }
    }
}

/// Every successful parse of a comma-separated list yields one or more well-formed
/// paths.
pub proof fn lemma_alternatives_wf(s: Seq<char>, r: int)
    requires
        0 <= r <= s.len(),
    ensures
        spec_alternatives(s, r) matches Ok((alts, e)) ==> alts.len() > 0 && (forall|i: int|
            0 <= i < alts.len() ==> wf_path(#[trigger] alts[i])) && r < e <= s.len(),
    decreases s.len() - r, 3int,
{
    lemma_path_wf(s, r);
    if let Ok((ph, e)) = spec_path(s, r) {
        let q = skip_ws(s, e);
        lemma_ws_len_bound(s, e);
        if r < e && 0 <= q < s.len() && s[q] == ',' {
            lemma_ws_len_bound(s, q + 1);
            lemma_alternatives_wf(s, skip_ws(s, q + 1));
            if let Ok((rest, f)) = spec_alternatives(s, skip_ws(s, q + 1)) {
                let alts = seq![ph] + rest;
                assert forall|i: int| 0 <= i < alts.len() implies wf_path(#[trigger] alts[i]) by {
                    if i > 0 {
                        assert(alts[i] == rest[i - 1]);
                    }
                }
            }
        }
    }
}

/// A successful import yields a path of one or more segments, every brace group in
/// it holds one or more paths, and every atom one or more alphanumeric characters.
pub proof fn lemma_import_wf(s: Seq<char>)
    ensures
        spec_import(s) matches Ok(ph) ==> wf_path(ph),
{
    if s.len() >= 4 {
        lemma_ws_len_bound(s, 4);
        lemma_path_wf(s, skip_ws(s, 4));
    }
}

/// Parsing is deterministic: two imports of lines with the same characters both
/// succeed with the same tree, or both fail with the same error.
pub proof fn lemma_import_deterministic<'a, 'b>(
    x: &str,
    y: &str,
    rx: Result<Path<'a>, ParseError>,
    ry: Result<Path<'b>, ParseError>,
)
    requires
        x@ == y@,
        import_result(x, rx),
        import_result(y, ry),
    ensures
        rx is Ok <==> ry is Ok,
        rx matches Ok(px) ==> ry matches Ok(py) && px@ == py@,
        rx matches Err(ex) ==> ry matches Err(ey) && ex == ey,
{
}

proof fn lemma_alnum_run(t: Seq<char>, p: int)
    requires
        0 <= p <= t.len(),
        forall|k: int| 0 <= k < t.len() ==> is_alnum(#[trigger] t[k]),
    ensures
        alnum_len(t, p) == t.len() - p,
    decreases t.len() - p,
{
    if p < t.len() {
        lemma_alnum_run(t, p + 1);
    }
}

/// A non-empty string of letters and digits, parsed on its own as a segment, is an
/// atom holding exactly that string, and the whole string is consumed.
pub proof fn lemma_atom_exact(t: Seq<char>)
    requires
        t.len() > 0,
        forall|k: int| 0 <= k < t.len() ==> is_alnum(#[trigger] t[k]),
    ensures
        spec_segment(t, 0) == Ok::<(SegmentModel, int), (ErrorKind, int)>(
            (SegmentModel::Atom(t), t.len() as int),
        ),
{
    lemma_alnum_run(t, 0);
    assert(t.subrange(0, t.len() as int) =~= t);
}

/// A `*` parses as a wildcard segment of one character, and never as an atom.
pub proof fn lemma_wildcard_distinct(s: Seq<char>, p: int)
    requires
        0 <= p < s.len(),
        s[p] == '*',
    ensures
        spec_segment(s, p) == Ok::<(SegmentModel, int), (ErrorKind, int)>(
            (SegmentModel::Wildcard, p + 1),
        ),
        spec_atom(s, p) is Err,
{
}

/// A character that no production consumes or looks for.
pub open spec fn is_inert(c: char) -> bool {
    !is_alnum(c) && !is_ws(c) && c != '*' && c != '{' && c != '}' && c != ',' && c != ':'
}

/// Two outcomes agree: both fail, or both succeed with the same value and end.
pub open spec fn agrees<T>(a: Outcome<T>, b: Outcome<T>) -> bool {
    (a is Ok <==> b is Ok) && (a is Ok ==> a == b)
}

proof fn lemma_ws_frame(s: Seq<char>, t: Seq<char>, p: int)
    requires
        0 <= p <= s.len(),
        t.len() > 0,
        is_inert(t[0]),
    ensures
        ws_len(s + t, p) == ws_len(s, p),
    decreases s.len() - p,
{
    if p < s.len() {
        lemma_ws_frame(s, t, p + 1);
    } else {
        assert((s + t)[p] == t[0]);
    }
}

proof fn lemma_alnum_frame(s: Seq<char>, t: Seq<char>, p: int)
    requires
        0 <= p <= s.len(),
        t.len() > 0,
        is_inert(t[0]),
    ensures
        alnum_len(s + t, p) == alnum_len(s, p),
    decreases s.len() - p,
{
    if p < s.len() {
        lemma_alnum_frame(s, t, p + 1);
    } else {
        assert((s + t)[p] == t[0]);
    }
}

proof fn lemma_segment_frame(s: Seq<char>, t: Seq<char>, p: int)
    requires
        0 <= p <= s.len(),
        t.len() > 0,
        is_inert(t[0]),
    ensures
        agrees(spec_segment(s + t, p), spec_segment(s, p)),
    decreases s.len() - p, 1int,
{
    let u = s + t;
    if p < s.len() {
        assert(u[p] == s[p]);
        if s[p] != '*' && is_alnum(s[p]) {
            lemma_alnum_frame(s, t, p);
            lemma_alnum_len_bound(s, p);
            let e = p + alnum_len(s, p);
            assert(u.subrange(p, e) =~= s.subrange(p, e));
        } else if s[p] != '*' {
            lemma_multiple_frame(s, t, p);
        }
    } else {
        assert(u[p] == t[0]);
        lemma_multiple_frame(s, t, p);
    }
}

proof fn lemma_path_frame(s: Seq<char>, t: Seq<char>, p: int)
    requires
        0 <= p <= s.len(),
        t.len() > 0,
        is_inert(t[0]),
    ensures
        agrees(spec_path(s + t, p), spec_path(s, p)),
    decreases s.len() - p, 2int,
{
    let u = s + t;
    lemma_segment_frame(s, t, p);
    lemma_segment_wf(s, p);
    if let Ok((g, e)) = spec_segment(s, p) {
        if e < s.len() {
            assert(u[e] == s[e]);
        } else {
            assert(u[e] == t[0]);
        }
        if e + 1 < s.len() {
            assert(u[e + 1] == s[e + 1]);
        } else if e + 1 == s.len() {
            assert(u[e + 1] == t[0]);
        }
        assert(has_sep(u, e) == has_sep(s, e));
        if p < e && has_sep(s, e) {
            lemma_path_frame(s, t, e + 2);
        }
    }
}

proof fn lemma_alternatives_frame(s: Seq<char>, t: Seq<char>, r: int)
    requires
        0 <= r <= s.len(),
        t.len() > 0,
        is_inert(t[0]),
    ensures
        agrees(spec_alternatives(s + t, r), spec_alternatives(s, r)),
    decreases s.len() - r, 3int,
{
    let u = s + t;
    lemma_path_frame(s, t, r);
    lemma_path_wf(s, r);
    if let Ok((ph, e)) = spec_path(s, r) {
        lemma_ws_frame(s, t, e);
        lemma_ws_len_bound(s, e);
        let q = skip_ws(s, e);
        if q < s.len() {
            assert(u[q] == s[q]);
        } else {
            assert(u[q] == t[0]);
        }
        if r < e && q < s.len() && s[q] == ',' {
            lemma_ws_frame(s, t, q + 1);
            lemma_ws_len_bound(s, q + 1);
            lemma_alternatives_frame(s, t, skip_ws(s, q + 1));
        }
    }
}

proof fn lemma_multiple_frame(s: Seq<char>, t: Seq<char>, p: int)
    requires
        0 <= p <= s.len(),
        t.len() > 0,
        is_inert(t[0]),
    ensures
        agrees(spec_multiple(s + t, p), spec_multiple(s, p)),
    decreases s.len() - p, 0int,
{
    let u = s + t;
    lemma_ws_frame(s, t, p);
    lemma_ws_len_bound(s, p);
    let q = skip_ws(s, p);
    if q < s.len() {
        assert(u[q] == s[q]);
    } else {
        assert(u[q] == t[0]);
    }
    if q < s.len() && s[q] == '{' {
        lemma_ws_frame(s, t, q + 1);
        lemma_ws_len_bound(s, q + 1);
        let r = skip_ws(s, q + 1);
        lemma_alternatives_frame(s, t, r);
        lemma_alternatives_wf(s, r);
        if let Ok((alts, e)) = spec_alternatives(s, r) {
            lemma_ws_frame(s, t, e);
            lemma_ws_len_bound(s, e);
            let c = skip_ws(s, e);
            if c < s.len() {
                assert(u[c] == s[c]);
                lemma_ws_frame(s, t, c + 1);
            } else {
                assert(u[c] == t[0]);
            }
        }
    }
}

/// Text after the path is not read: appending to a line text whose first character
/// no production reads (such as `;`) leaves the import's result unchanged where it
/// succeeded, and leaves it a failure where it failed.
pub proof fn lemma_import_ignores_trailing(s: Seq<char>, t: Seq<char>)
    requires
        t.len() > 0,
        is_inert(t[0]),
    ensures
        spec_import(s + t) is Ok <==> spec_import(s) is Ok,
        spec_import(s) is Ok ==> spec_import(s + t) == spec_import(s),
{
    let u = s + t;
    if s.len() >= 4 {
        assert(u.subrange(0, 4) =~= s.subrange(0, 4));
        lemma_ws_frame(s, t, 4);
        lemma_ws_len_bound(s, 4);
        lemma_path_frame(s, t, skip_ws(s, 4));
    } else {
        assert(u[s.len() as int] == t[0]);
        if u.len() >= 4 && u.subrange(0, 4) == sentinel() {
            assert(u.subrange(0, 4)[s.len() as int] == u[s.len() as int]);
        }
    }
}

} // verus!
