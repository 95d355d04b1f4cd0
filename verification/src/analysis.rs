//! The wire formats of the analysis exchange: the request body carrying
//! the image payload, and the reply carrying the service's status token,
//! processed image and coordinate list.  Numbers travel as tokens — the
//! coordinator never computes on them — and the whole reply form is
//! unambiguous, so the coordinates the coordinator returns are exactly the
//! coordinates the service listed, in their order.

use vstd::prelude::*;

use crate::text::{
    append_json_string, lemma_concat_cancel, lemma_json_string_unambiguous, lemma_peel,
    match_prefix, parse_json_string_at, spec_json_string, str_eq,
};
use crate::types::{coords_views, CoordView, ImageCoordinates, ImageResponse, RespView};

verus! {

/// A character that may stand in a number token.
pub open spec fn num_char(c: char) -> bool {
    c == '-' || c == '+' || c == '.' || c == 'e' || c == 'E' || (48 <= c as u32 && c as u32 <= 57)
}

/// A number token: non-empty, made of number characters only.
pub open spec fn is_num_token(s: Seq<char>) -> bool {
    s.len() > 0 && (forall|i: int| 0 <= i < s.len() ==> num_char(s[i]))
}

/// A well-formed coordinate: three number tokens.
pub open spec fn coord_wf(c: CoordView) -> bool {
    is_num_token(c.x) && is_num_token(c.y) && is_num_token(c.confidence)
}

/// A well-formed coordinate run.
pub open spec fn coords_wf(cs: Seq<CoordView>) -> bool {
    forall|i: int| 0 <= i < cs.len() ==> coord_wf(cs[i])
}

/// A well-formed reply: a number token for the status, well-formed
/// coordinates.
pub open spec fn resp_wf(v: RespView) -> bool {
    is_num_token(v.status) && coords_wf(v.coords)
}

// The text of one coordinate, built right to left.
pub open spec fn cj5(c: CoordView) -> Seq<char> {
    "}"@
}

pub open spec fn cj4(c: CoordView) -> Seq<char> {
    c.confidence + cj5(c)
}

pub open spec fn cj3(c: CoordView) -> Seq<char> {
    ",\"confidence\":"@ + cj4(c)
}

pub open spec fn cj2(c: CoordView) -> Seq<char> {
    c.y + cj3(c)
}

pub open spec fn cj1(c: CoordView) -> Seq<char> {
    ",\"y\":"@ + cj2(c)
}

pub open spec fn cj0(c: CoordView) -> Seq<char> {
    c.x + cj1(c)
}

/// The canonical text of one coordinate.
pub open spec fn spec_coord_json(c: CoordView) -> Seq<char> {
    "{\"x\":"@ + cj0(c)
}

/// The canonical text of a coordinate run, elements joined by commas.
pub open spec fn spec_coords_list(cs: Seq<CoordView>) -> Seq<char>
    decreases cs.len(),
{
    if cs.len() == 0 {
        Seq::empty()
    } else if cs.len() == 1 {
        spec_coord_json(cs[0])
    } else {
        spec_coord_json(cs[0]) + ","@ + spec_coords_list(cs.skip(1))
    }
}

/// The canonical text of a coordinate array.
pub open spec fn spec_coords_json(cs: Seq<CoordView>) -> Seq<char> {
    "["@ + (spec_coords_list(cs) + "]"@)
}

// The text of the whole reply, built right to left.
pub open spec fn rj5(v: RespView) -> Seq<char> {
    "}"@
}

pub open spec fn rj4(v: RespView) -> Seq<char> {
    spec_coords_json(v.coords) + rj5(v)
}

pub open spec fn rj3(v: RespView) -> Seq<char> {
    ",\"coordinates\":"@ + rj4(v)
}

pub open spec fn rj2(v: RespView) -> Seq<char> {
    spec_json_string(v.image) + rj3(v)
}

pub open spec fn rj1(v: RespView) -> Seq<char> {
    ",\"image\":"@ + rj2(v)
}

pub open spec fn rj0(v: RespView) -> Seq<char> {
    v.status + rj1(v)
}

/// The canonical text of an analysis reply.
pub open spec fn spec_image_response_json(v: RespView) -> Seq<char> {
    "{\"status\":"@ + rj0(v)
}

/// The canonical text of an analysis request carrying the image payload.
pub open spec fn spec_image_call_json(image: Seq<char>) -> Seq<char> {
    "{\"image\":"@ + (spec_json_string(image) + "}"@)
}

/// A whitespace character that JSON allows between tokens.
pub open spec fn json_ws(c: char) -> bool {
    c == ' ' || c == '\t' || c == '\n' || c == '\r'
}

/// The text from position `i` on with inter-token whitespace removed.
/// `in_str` says whether position `i` stands inside a quoted string, where
/// every character (and both characters of a backslash escape) is kept.
pub open spec fn spec_compact_from(s: Seq<char>, i: int, in_str: bool) -> Seq<char>
    decreases s.len() - i,
{
    if i < 0 || i >= s.len() {
        Seq::empty()
    } else {
        let c = s[i];
        if in_str {
            if c == '\\' && i + 1 < s.len() {
                seq![c, s[i + 1]] + spec_compact_from(s, i + 2, true)
            } else if c == '"' {
                seq![c] + spec_compact_from(s, i + 1, false)
            } else {
                seq![c] + spec_compact_from(s, i + 1, true)
            }
        } else {
            if json_ws(c) {
                spec_compact_from(s, i + 1, false)
            } else if c == '"' {
                seq![c] + spec_compact_from(s, i + 1, true)
            } else {
                seq![c] + spec_compact_from(s, i + 1, false)
            }
        }
    }
}

/// A text with its inter-token whitespace removed: what remains of a JSON
/// document when every space outside a quoted string is dropped.
pub open spec fn spec_compact(s: Seq<char>) -> Seq<char> {
    spec_compact_from(s, 0, false)
}

/// Removes inter-token whitespace, leaving quoted strings untouched.
pub fn compact_json_text(s: &str) -> (r: String)
    ensures
        r@ == spec_compact(s@),
{
    let n = s.unicode_len();
    let mut out = String::new();
    let mut pos: usize = 0;
    let mut in_str = false;
    while pos < n
        invariant
            n == s@.len(),
            0 <= pos <= n,
            spec_compact(s@) == out@ + spec_compact_from(s@, pos as int, in_str),
        decreases n - pos,
    {
        let c = s.get_char(pos);
        if in_str {
            if c == '\\' && pos + 1 < n {
                let piece = s.substring_char(pos, pos + 2);
                out.append(piece);
                proof {
                    assert(piece@ =~= seq![s@[pos as int], s@[pos + 1]]);
                }
                pos = pos + 2;
            } else if c == '"' {
                let piece = s.substring_char(pos, pos + 1);
                out.append(piece);
                proof {
                    assert(piece@ =~= seq![s@[pos as int]]);
                }
                in_str = false;
                pos = pos + 1;
            } else {
                let piece = s.substring_char(pos, pos + 1);
                out.append(piece);
                proof {
                    assert(piece@ =~= seq![s@[pos as int]]);
                }
                pos = pos + 1;
            }
        } else {
            let ws = c == ' ' || c == '\t' || c == '\n' || c == '\r';
            if ws {
                pos = pos + 1;
            } else if c == '"' {
                let piece = s.substring_char(pos, pos + 1);
                out.append(piece);
                proof {
                    assert(piece@ =~= seq![s@[pos as int]]);
                }
                in_str = true;
                pos = pos + 1;
            } else {
                let piece = s.substring_char(pos, pos + 1);
                out.append(piece);
                proof {
                    assert(piece@ =~= seq![s@[pos as int]]);
                }
                pos = pos + 1;
            }
        }
    }
    proof {
        assert(spec_compact_from(s@, n as int, in_str) =~= Seq::<char>::empty());
    }
    out
}

proof fn lemma_concat_assoc(a: Seq<char>, b: Seq<char>, c: Seq<char>)
    ensures
        a + b + c == a + (b + c),
{
    assert(a + b + c =~= a + (b + c));
}

/// A number token followed by text that does not begin with a number
/// character has only one reading.
pub proof fn lemma_num_token_unambiguous(a: Seq<char>, b: Seq<char>, r1: Seq<char>, r2: Seq<char>)
    requires
        a + r1 == b + r2,
        is_num_token(a),
        is_num_token(b),
        r1.len() == 0 || !num_char(r1[0]),
        r2.len() == 0 || !num_char(r2[0]),
    ensures
        a == b,
        r1 == r2,
{
    if a.len() < b.len() {
        assert(r1.len() > 0) by {
            assert((a + r1).len() == (b + r2).len());
        }
        assert((a + r1)[a.len() as int] == r1[0]);
        assert((b + r2)[a.len() as int] == b[a.len() as int]);
        assert(num_char(b[a.len() as int]));
        assert(false);
    }
    if b.len() < a.len() {
        assert(r2.len() > 0) by {
            assert((a + r1).len() == (b + r2).len());
        }
        assert((b + r2)[b.len() as int] == r2[0]);
        assert((a + r1)[b.len() as int] == a[b.len() as int]);
        assert(num_char(a[b.len() as int]));
        assert(false);
    }
    assert forall|i: int| 0 <= i < a.len() implies a[i] == b[i] by {
        assert((a + r1)[i] == a[i]);
        assert((b + r2)[i] == b[i]);
    }
    assert(a =~= b);
    lemma_concat_cancel(a, r1, r2);
}

/// A coordinate text followed by arbitrary text has only one reading.
pub proof fn lemma_coord_json_unambiguous(c1: CoordView, c2: CoordView, r1: Seq<char>, r2: Seq<char>)
    requires
        coord_wf(c1),
        coord_wf(c2),
        spec_coord_json(c1) + r1 == spec_coord_json(c2) + r2,
    ensures
        c1 == c2,
        r1 == r2,
{
    reveal_strlit(",\"y\":");
    reveal_strlit(",\"confidence\":");
    reveal_strlit("}");
    lemma_concat_assoc("{\"x\":"@, cj0(c1), r1);
    lemma_concat_assoc("{\"x\":"@, cj0(c2), r2);
    lemma_concat_cancel("{\"x\":"@, cj0(c1) + r1, cj0(c2) + r2);
    lemma_concat_assoc(c1.x, cj1(c1), r1);
    lemma_concat_assoc(c2.x, cj1(c2), r2);
    assert((cj1(c1) + r1)[0] == ',') by {
        assert((cj1(c1) + r1)[0] == cj1(c1)[0]);
    }
    assert((cj1(c2) + r2)[0] == ',') by {
        assert((cj1(c2) + r2)[0] == cj1(c2)[0]);
    }
    lemma_num_token_unambiguous(c1.x, c2.x, cj1(c1) + r1, cj1(c2) + r2);
    lemma_concat_assoc(",\"y\":"@, cj2(c1), r1);
    lemma_concat_assoc(",\"y\":"@, cj2(c2), r2);
    lemma_concat_cancel(",\"y\":"@, cj2(c1) + r1, cj2(c2) + r2);
    lemma_concat_assoc(c1.y, cj3(c1), r1);
    lemma_concat_assoc(c2.y, cj3(c2), r2);
    assert((cj3(c1) + r1)[0] == ',') by {
        assert((cj3(c1) + r1)[0] == cj3(c1)[0]);
    }
    assert((cj3(c2) + r2)[0] == ',') by {
        assert((cj3(c2) + r2)[0] == cj3(c2)[0]);
    }
    lemma_num_token_unambiguous(c1.y, c2.y, cj3(c1) + r1, cj3(c2) + r2);
    lemma_concat_assoc(",\"confidence\":"@, cj4(c1), r1);
    lemma_concat_assoc(",\"confidence\":"@, cj4(c2), r2);
    lemma_concat_cancel(",\"confidence\":"@, cj4(c1) + r1, cj4(c2) + r2);
    lemma_concat_assoc(c1.confidence, cj5(c1), r1);
    lemma_concat_assoc(c2.confidence, cj5(c2), r2);
    assert((cj5(c1) + r1)[0] == '}') by {
        assert((cj5(c1) + r1)[0] == cj5(c1)[0]);
    }
    assert((cj5(c2) + r2)[0] == '}') by {
        assert((cj5(c2) + r2)[0] == cj5(c2)[0]);
    }
    lemma_num_token_unambiguous(c1.confidence, c2.confidence, cj5(c1) + r1, cj5(c2) + r2);
    lemma_concat_cancel("}"@, r1, r2);
    assert(c1 =~= c2);
}

/// A coordinate list up to its closing bracket determines the coordinates
/// and the remainder.
proof fn lemma_coords_list_unambiguous(
    cs1: Seq<CoordView>,
    cs2: Seq<CoordView>,
    r1: Seq<char>,
    r2: Seq<char>,
)
    requires
        coords_wf(cs1),
        coords_wf(cs2),
        spec_coords_list(cs1) + "]"@ + r1 == spec_coords_list(cs2) + "]"@ + r2,
    ensures
        cs1 == cs2,
        r1 == r2,
    decreases cs1.len(),
{
    reveal_strlit("]");
    reveal_strlit(",");
    reveal_strlit("{\"x\":");
    let s1 = spec_coords_list(cs1) + "]"@ + r1;
    let s2 = spec_coords_list(cs2) + "]"@ + r2;
    if cs1.len() == 0 {
        assert(s1[0] == ']');
        if cs2.len() > 0 {
            assert(spec_coords_list(cs2)[0] == spec_coord_json(cs2[0])[0]) by {
                if cs2.len() == 1 {
                } else {
                    assert((spec_coord_json(cs2[0]) + ","@ + spec_coords_list(cs2.skip(1)))[0]
                        == spec_coord_json(cs2[0])[0]);
                }
            }
            assert(spec_coord_json(cs2[0])[0] == '{');
            assert(s2[0] == '{');
            assert(false);
        }
        assert(spec_coords_list(cs1) + "]"@ + r1 =~= "]"@ + r1);
        assert(spec_coords_list(cs2) + "]"@ + r2 =~= "]"@ + r2);
        lemma_concat_cancel("]"@, r1, r2);
        assert(cs1 =~= cs2);
    } else {
        if cs2.len() == 0 {
            assert(s2[0] == ']');
            assert(spec_coords_list(cs1)[0] == spec_coord_json(cs1[0])[0]) by {
                if cs1.len() == 1 {
                } else {
                    assert((spec_coord_json(cs1[0]) + ","@ + spec_coords_list(cs1.skip(1)))[0]
                        == spec_coord_json(cs1[0])[0]);
                }
            }
            assert(spec_coord_json(cs1[0])[0] == '{');
            assert(false);
        }
        // both non-empty: the first coordinate reads the same both ways
        let x1 = if cs1.len() == 1 {
            "]"@ + r1
        } else {
            ","@ + spec_coords_list(cs1.skip(1)) + "]"@ + r1
        };
        let x2 = if cs2.len() == 1 {
            "]"@ + r2
        } else {
            ","@ + spec_coords_list(cs2.skip(1)) + "]"@ + r2
        };
        assert(s1 =~= spec_coord_json(cs1[0]) + x1);
        assert(s2 =~= spec_coord_json(cs2[0]) + x2);
        lemma_coord_json_unambiguous(cs1[0], cs2[0], x1, x2);
        if cs1.len() == 1 && cs2.len() == 1 {
            lemma_concat_cancel("]"@, r1, r2);
            assert(cs1 =~= cs2);
        } else if cs1.len() == 1 {
            assert(x1[0] == ']');
            assert(x2[0] == ',');
            assert(false);
        } else if cs2.len() == 1 {
            assert(x1[0] == ',');
            assert(x2[0] == ']');
            assert(false);
        } else {
            assert(x1 =~= ","@ + (spec_coords_list(cs1.skip(1)) + "]"@ + r1));
            assert(x2 =~= ","@ + (spec_coords_list(cs2.skip(1)) + "]"@ + r2));
            lemma_concat_cancel(
                ","@,
                spec_coords_list(cs1.skip(1)) + "]"@ + r1,
                spec_coords_list(cs2.skip(1)) + "]"@ + r2,
            );
            lemma_coords_list_unambiguous(cs1.skip(1), cs2.skip(1), r1, r2);
            assert(cs1.len() == cs2.len()) by {
                assert(cs1.skip(1).len() == cs2.skip(1).len());
            }
            assert forall|i: int| 0 <= i < cs1.len() implies cs1[i] == cs2[i] by {
                if i > 0 {
                    assert(cs1.skip(1)[i - 1] == cs2.skip(1)[i - 1]);
                }
            }
            assert(cs1 =~= cs2);
        }
    }
}

/// A coordinate array text followed by arbitrary text has only one
/// reading.
pub proof fn lemma_coords_json_unambiguous(
    cs1: Seq<CoordView>,
    cs2: Seq<CoordView>,
    r1: Seq<char>,
    r2: Seq<char>,
)
    requires
        coords_wf(cs1),
        coords_wf(cs2),
        spec_coords_json(cs1) + r1 == spec_coords_json(cs2) + r2,
    ensures
        cs1 == cs2,
        r1 == r2,
{
    assert(spec_coords_json(cs1) + r1 =~= "["@ + (spec_coords_list(cs1) + "]"@ + r1));
    assert(spec_coords_json(cs2) + r2 =~= "["@ + (spec_coords_list(cs2) + "]"@ + r2));
    lemma_concat_cancel("["@, spec_coords_list(cs1) + "]"@ + r1, spec_coords_list(cs2) + "]"@ + r2);
    lemma_coords_list_unambiguous(cs1, cs2, r1, r2);
}

/// No two distinct well-formed replies share a text.  Together with
/// `parse_image_response`'s contract this pins the coordinates end to end:
/// whenever a reply text carries a list of coordinates, the coordinator
/// decodes that list and no other, in the order the service listed it.
pub proof fn lemma_image_response_json_injective(a: RespView, b: RespView)
    requires
        resp_wf(a),
        resp_wf(b),
        spec_image_response_json(a) == spec_image_response_json(b),
    ensures
        a == b,
{
    reveal_strlit(",\"image\":");
    lemma_concat_cancel("{\"status\":"@, rj0(a), rj0(b));
    assert(rj1(a)[0] == ',');
    assert(rj1(b)[0] == ',');
    lemma_num_token_unambiguous(a.status, b.status, rj1(a), rj1(b));
    lemma_concat_cancel(",\"image\":"@, rj2(a), rj2(b));
    lemma_json_string_unambiguous(a.image, b.image, rj3(a), rj3(b));
    lemma_concat_cancel(",\"coordinates\":"@, rj4(a), rj4(b));
    lemma_coords_json_unambiguous(a.coords, b.coords, rj5(a), rj5(b));
    assert(a =~= b);
}

/// Whether `c` may stand in a number token.
fn is_num_char(c: char) -> (r: bool)
    ensures
        r == num_char(c),
{
    let v = c as u32;
    c == '-' || c == '+' || c == '.' || c == 'e' || c == 'E' || (48 <= v && v <= 57)
}

/// Reads the number token standing at position `i` of `s`: the longest
/// non-empty run of number characters.  Wherever a number token followed
/// by a non-number character (or the end of `s`) stands at `i`, the read
/// succeeds and returns exactly that token.
pub fn parse_num_token_at(s: &str, i: usize) -> (r: Option<(String, usize)>)
    requires
        i <= s@.len(),
    ensures
        r matches Some(p) ==> i < p.1 <= s@.len() && is_num_token(p.0@) && s@.subrange(
            i as int,
            p.1 as int,
        ) == p.0@,
        forall|t: Seq<char>, rest: Seq<char>|
            (s@.skip(i as int) == t + rest && is_num_token(t) && (rest.len() == 0 || !num_char(
                rest[0],
            ))) ==> (r matches Some(p) && p.0@ == t && p.1 == i + t.len()),
{
    let n = s.unicode_len();
    let mut j: usize = i;
    while j < n && is_num_char(s.get_char(j))
        invariant
            n == s@.len(),
            i <= j <= n,
            forall|m: int| i <= m < j ==> num_char(s@[m]),
            forall|t: Seq<char>, rest: Seq<char>|
                (s@.skip(i as int) == t + rest && is_num_token(t) && (rest.len() == 0 || !num_char(
                    rest[0],
                ))) ==> j <= i + t.len(),
        decreases n - j,
    {
        proof {
            assert forall|t: Seq<char>, rest: Seq<char>|
                (s@.skip(i as int) == t + rest && is_num_token(t) && (rest.len() == 0 || !num_char(
                    rest[0],
                ))) implies j + 1 <= i + t.len() by {
                if j == i + t.len() {
                    assert(s@.skip(i as int).len() == n - i);
                    assert(rest.len() > 0);
                    assert((t + rest)[t.len() as int] == rest[0]);
                    assert(s@.skip(i as int)[t.len() as int] == s@[i + t.len()]);
                    assert(num_char(s@[j as int]));
                    assert(false);
                }
            }
        }
        j += 1;
    }
    if j == i {
        proof {
            assert forall|t: Seq<char>, rest: Seq<char>|
                !(s@.skip(i as int) == t + rest && is_num_token(t) && (rest.len() == 0
                    || !num_char(rest[0]))) by {
                if s@.skip(i as int) == t + rest && is_num_token(t) {
                    assert(s@.skip(i as int).len() == n - i);
                    assert(t.len() > 0);
                    assert(i < n);
                    assert((t + rest)[0] == t[0]);
                    assert(s@.skip(i as int)[0] == s@[i as int]);
                    assert(num_char(s@[i as int]));
                    assert(false);
                }
            }
        }
        return None;
    }
    let tok = s.substring_char(i, j);
    let out = String::from_str(tok);
    proof {
        assert(out@ == s@.subrange(i as int, j as int));
        assert(is_num_token(out@)) by {
            assert(out@.len() > 0);
            assert forall|m: int| 0 <= m < out@.len() implies num_char(out@[m]) by {
                assert(out@[m] == s@[i + m]);
            }
        }
        assert forall|t: Seq<char>, rest: Seq<char>|
            (s@.skip(i as int) == t + rest && is_num_token(t) && (rest.len() == 0 || !num_char(
                rest[0],
            ))) implies out@ == t && j == i + t.len() by {
            if j < i + t.len() {
                assert(s@.skip(i as int).len() == n - i);
                assert(i + t.len() <= n);
                assert(j < n);
                assert((t + rest)[j - i] == t[j - i]);
                assert(s@.skip(i as int)[j - i] == s@[j as int]);
                assert(num_char(s@[j as int]));
                assert(false);
            }
            lemma_peel(s@, i as int, t, rest);
        }
    }
    Some((out, j))
}

/// The text of a run grows at its end by a separator and one coordinate.
proof fn lemma_coords_list_snoc(cs: Seq<CoordView>, c: CoordView)
    ensures
        spec_coords_list(cs.push(c)) == if cs.len() == 0 {
            spec_coord_json(c)
        } else {
            spec_coords_list(cs) + ","@ + spec_coord_json(c)
        },
    decreases cs.len(),
{
    let p = cs.push(c);
    if cs.len() == 0 {
        assert(p.len() == 1);
        assert(p[0] == c);
    } else if cs.len() == 1 {
        assert(p.len() == 2);
        assert(p[0] == cs[0]);
        assert(p.skip(1) =~= seq![c]);
        assert(seq![c].len() == 1);
        assert(seq![c][0] == c);
        assert(spec_coords_list(seq![c]) == spec_coord_json(c));
    } else {
        assert(p[0] == cs[0]);
        assert(p.skip(1) =~= cs.skip(1).push(c));
        lemma_coords_list_snoc(cs.skip(1), c);
        assert(spec_coords_list(p) =~= spec_coords_list(cs) + ","@ + spec_coord_json(c));
    }
}

proof fn lemma_coord_json_flat(c: CoordView)
    ensures
        spec_coord_json(c) == "{\"x\":"@ + c.x + ",\"y\":"@ + c.y + ",\"confidence\":"@
            + c.confidence + "}"@,
{
    assert(spec_coord_json(c) =~= "{\"x\":"@ + c.x + ",\"y\":"@ + c.y + ",\"confidence\":"@
        + c.confidence + "}"@);
}

/// Appends the canonical text of one coordinate.
fn append_coord(out: &mut String, c: &ImageCoordinates)
    ensures
        final(out)@ == old(out)@ + spec_coord_json(c@),
{
    out.append("{\"x\":");
    out.append(c.x.as_str());
    out.append(",\"y\":");
    out.append(c.y.as_str());
    out.append(",\"confidence\":");
    out.append(c.confidence.as_str());
    out.append("}");
    proof {
        lemma_coord_json_flat(c@);
        assert(out@ =~= old(out)@ + spec_coord_json(c@));
    }
}

/// The canonical text of a coordinate run: the serialized form persisted
/// with the operation result.
pub fn coords_json(cs: &Vec<ImageCoordinates>) -> (r: String)
    ensures
        r@ == spec_coords_json(coords_views(cs@)),
{
    let mut out = String::from_str("[");
    let mut idx: usize = 0;
    while idx < cs.len()
        invariant
            idx <= cs@.len(),
            idx == 0 ==> out@ == "["@,
            idx > 0 ==> out@ == "["@ + spec_coords_list(coords_views(cs@).take(idx as int)),
        decreases cs@.len() - idx,
    {
        if idx > 0 {
            out.append(",");
        }
        append_coord(&mut out, &cs[idx]);
        proof {
            let views = coords_views(cs@);
            assert(views[idx as int] == cs@[idx as int]@);
            assert(views.take(idx + 1) =~= views.take(idx as int).push(views[idx as int]));
            lemma_coords_list_snoc(views.take(idx as int), views[idx as int]);
            if idx == 0 {
                assert(views.take(0) =~= Seq::<CoordView>::empty());
                assert(out@ =~= "["@ + spec_coords_list(views.take(1)));
            } else {
                assert(out@ =~= "["@ + spec_coords_list(views.take(idx + 1)));
            }
        }
        idx += 1;
    }
    out.append("]");
    proof {
        let views = coords_views(cs@);
        assert(views.take(cs@.len() as int) =~= views);
        assert(out@ =~= "["@ + (spec_coords_list(views) + "]"@));
    }
    out
}

/// The canonical text of an analysis request for `image`.
pub fn image_call_json(image: &str) -> (r: String)
    ensures
        r@ == spec_image_call_json(image@),
{
    let mut out = String::from_str("{\"image\":");
    append_json_string(&mut out, image);
    out.append("}");
    proof {
        assert(out@ =~= spec_image_call_json(image@));
    }
    out
}

/// The canonical text of an analysis reply.
pub fn response_json(resp: &ImageResponse) -> (r: String)
    ensures
        r@ == spec_image_response_json(resp@),
{
    let mut out = String::from_str("{\"status\":");
    out.append(resp.status.as_str());
    out.append(",\"image\":");
    append_json_string(&mut out, resp.image.as_str());
    out.append(",\"coordinates\":");
    let coords = coords_json(&resp.image_result);
    out.append(coords.as_str());
    out.append("}");
    proof {
        assert(out@ =~= spec_image_response_json(resp@));
    }
    out
}

/// Reads one coordinate standing at position `i` of `s`.  Wherever a
/// well-formed coordinate text stands at `i`, the read succeeds and
/// returns exactly that coordinate.
pub fn parse_coord_at(s: &str, i: usize) -> (r: Option<(ImageCoordinates, usize)>)
    requires
        i <= s@.len(),
    ensures
        r matches Some(p) ==> i < p.1 <= s@.len() && coord_wf(p.0@),
        forall|c: CoordView, rest: Seq<char>|
            (s@.skip(i as int) == spec_coord_json(c) + rest && coord_wf(c)) ==> (r matches Some(p)
                && p.0@ == c && p.1 == i + spec_coord_json(c).len()),
{
    let ghost can = exists|c: CoordView, rest: Seq<char>|
        s@.skip(i as int) == spec_coord_json(c) + rest && coord_wf(c);
    let ghost (c0, rest0): (CoordView, Seq<char>) = if can {
        choose|c: CoordView, rest: Seq<char>|
            s@.skip(i as int) == spec_coord_json(c) + rest && coord_wf(c)
    } else {
        (arbitrary(), arbitrary())
    };
    let mut pos: usize = i;
    proof {
        if can {
            lemma_concat_assoc("{\"x\":"@, cj0(c0), rest0);
            lemma_peel(s@, i as int, "{\"x\":"@, cj0(c0) + rest0);
        }
    }
    pos = match match_prefix(s, pos, "{\"x\":") {
        Some(j) => j,
        None => {
            proof {
                if can {
                    assert(false);
                }
            }
            return None;
        },
    };
    proof {
        if can {
            reveal_strlit(",\"y\":");
            lemma_concat_assoc(c0.x, cj1(c0), rest0);
            assert((cj1(c0) + rest0)[0] == cj1(c0)[0]);
            assert(!num_char(','));
        }
    }
    let x_tok = match parse_num_token_at(s, pos) {
        Some(p) => p,
        None => {
            proof {
                if can {
                    assert(false);
                }
            }
            return None;
        },
    };
    proof {
        if can {
            lemma_peel(s@, pos as int, c0.x, cj1(c0) + rest0);
        }
    }
    pos = x_tok.1;
    proof {
        if can {
            lemma_concat_assoc(",\"y\":"@, cj2(c0), rest0);
            lemma_peel(s@, pos as int, ",\"y\":"@, cj2(c0) + rest0);
        }
    }
    pos = match match_prefix(s, pos, ",\"y\":") {
        Some(j) => j,
        None => {
            proof {
                if can {
                    assert(false);
                }
            }
            return None;
        },
    };
    proof {
        if can {
            reveal_strlit(",\"confidence\":");
            lemma_concat_assoc(c0.y, cj3(c0), rest0);
            assert((cj3(c0) + rest0)[0] == cj3(c0)[0]);
            assert(!num_char(','));
        }
    }
    let y_tok = match parse_num_token_at(s, pos) {
        Some(p) => p,
        None => {
            proof {
                if can {
                    assert(false);
                }
            }
            return None;
        },
    };
    proof {
        if can {
            lemma_peel(s@, pos as int, c0.y, cj3(c0) + rest0);
        }
    }
    pos = y_tok.1;
    proof {
        if can {
            lemma_concat_assoc(",\"confidence\":"@, cj4(c0), rest0);
            lemma_peel(s@, pos as int, ",\"confidence\":"@, cj4(c0) + rest0);
        }
    }
    pos = match match_prefix(s, pos, ",\"confidence\":") {
        Some(j) => j,
        None => {
            proof {
                if can {
                    assert(false);
                }
            }
            return None;
        },
    };
    proof {
        if can {
            reveal_strlit("}");
            lemma_concat_assoc(c0.confidence, cj5(c0), rest0);
            assert((cj5(c0) + rest0)[0] == cj5(c0)[0]);
            assert(!num_char('}'));
        }
    }
    let conf_tok = match parse_num_token_at(s, pos) {
        Some(p) => p,
        None => {
            proof {
                if can {
                    assert(false);
                }
            }
            return None;
        },
    };
    proof {
        if can {
            lemma_peel(s@, pos as int, c0.confidence, cj5(c0) + rest0);
        }
    }
    pos = conf_tok.1;
    proof {
        if can {
            lemma_concat_assoc("}"@, Seq::<char>::empty(), rest0);
            assert(cj5(c0) + rest0 =~= "}"@ + rest0);
            lemma_peel(s@, pos as int, "}"@, rest0);
        }
    }
    pos = match match_prefix(s, pos, "}") {
        Some(j) => j,
        None => {
            proof {
                if can {
                    assert(false);
                }
            }
            return None;
        },
    };
    let coord = ImageCoordinates { x: x_tok.0, y: y_tok.0, confidence: conf_tok.0 };
    proof {
        if can {
            assert(coord@ =~= c0);
            assert(s@.skip(i as int).len() == s@.len() - i);
            assert(s@.skip(pos as int).len() == s@.len() - pos);
            assert(s@.skip(pos as int) == rest0);
            assert(pos == i + spec_coord_json(c0).len());
            assert forall|c: CoordView, rest: Seq<char>|
                (s@.skip(i as int) == spec_coord_json(c) + rest && coord_wf(c)) implies c == c0
                && rest == rest0 by {
                lemma_coord_json_unambiguous(c, c0, rest, rest0);
            }
        }
    }
    Some((coord, pos))
}

/// Reads a coordinate array standing at position `i` of `s`.  Wherever a
/// well-formed coordinate array text stands at `i`, the read succeeds and
/// returns exactly those coordinates, in their order.
#[verifier::rlimit(100)]
pub fn parse_coords_at(s: &str, i: usize) -> (r: Option<(Vec<ImageCoordinates>, usize)>)
    requires
        i <= s@.len(),
    ensures
        r matches Some(p) ==> i < p.1 <= s@.len() && coords_wf(coords_views(p.0@)),
        forall|cs: Seq<CoordView>, rest: Seq<char>|
            (s@.skip(i as int) == spec_coords_json(cs) + rest && coords_wf(cs)) ==> (r matches Some(
                p,
            ) && coords_views(p.0@) == cs && p.1 == i + spec_coords_json(cs).len()),
{
    let ghost can = exists|cs: Seq<CoordView>, rest: Seq<char>|
        s@.skip(i as int) == spec_coords_json(cs) + rest && coords_wf(cs);
    let ghost (cs0, rest0): (Seq<CoordView>, Seq<char>) = if can {
        choose|cs: Seq<CoordView>, rest: Seq<char>|
            s@.skip(i as int) == spec_coords_json(cs) + rest && coords_wf(cs)
    } else {
        (arbitrary(), arbitrary())
    };
    let n = s.unicode_len();
    proof {
        reveal_strlit("[");
        reveal_strlit("]");
        reveal_strlit(",");
        if can {
            lemma_concat_assoc("["@, spec_coords_list(cs0) + "]"@, rest0);
            lemma_concat_assoc(spec_coords_list(cs0), "]"@, rest0);
            lemma_peel(s@, i as int, "["@, spec_coords_list(cs0) + ("]"@ + rest0));
        }
    }
    let mut pos: usize = match match_prefix(s, i, "[") {
        Some(j) => j,
        None => {
            proof {
                if can {
                    assert(false);
                }
            }
            return None;
        },
    };
    if let Some(j) = match_prefix(s, pos, "]") {
        proof {
            if can {
                reveal_strlit("]");
                reveal_strlit("{\"x\":");
                if cs0.len() > 0 {
                    assert(spec_coords_list(cs0)[0] == spec_coord_json(cs0[0])[0]) by {
                        if cs0.len() == 1 {
                        } else {
                            assert((spec_coord_json(cs0[0]) + ","@ + spec_coords_list(cs0.skip(1)))[
                                0
                            ] == spec_coord_json(cs0[0])[0]);
                        }
                    }
                    assert(spec_coord_json(cs0[0])[0] == '{') by {
                        assert(spec_coord_json(cs0[0])[0] == "{\"x\":"@[0]);
                    }
                    assert((spec_coords_list(cs0) + ("]"@ + rest0))[0] == spec_coords_list(cs0)[0]);
                    assert(s@.skip(pos as int)[0] == s@[pos as int]);
                    assert(s@.subrange(pos as int, pos + "]"@.len())[0] == s@[pos as int]);
                    assert(false);
                }
                assert(spec_coords_list(cs0) + ("]"@ + rest0) =~= "]"@ + rest0);
                lemma_peel(s@, pos as int, "]"@, rest0);
                assert(coords_views(Seq::<ImageCoordinates>::empty()) =~= Seq::<
                    CoordView,
                >::empty());
                assert(coords_views(Seq::<ImageCoordinates>::empty()) =~= cs0);
                assert forall|cs: Seq<CoordView>, rest: Seq<char>|
                    (s@.skip(i as int) == spec_coords_json(cs) + rest && coords_wf(cs)) implies cs
                    == cs0 && rest == rest0 by {
                    lemma_coords_json_unambiguous(cs, cs0, rest, rest0);
                }
            }
        }
        let empty_items: Vec<ImageCoordinates> = Vec::new();
        proof {
            assert(empty_items@ =~= Seq::<ImageCoordinates>::empty());
        }
        return Some((empty_items, j));
    }
    proof {
        if can && cs0.len() == 0 {
            assert(spec_coords_list(cs0) + ("]"@ + rest0) =~= "]"@ + rest0);
            lemma_peel(s@, pos as int, "]"@, rest0);
            assert(false);
        }
    }
    let mut items: Vec<ImageCoordinates> = Vec::new();
    let ghost mut k: int = 0;
    proof {
        if can {
            assert(coords_views(items@) =~= cs0.take(0));
            assert(cs0.skip(0) =~= cs0);
        }
    }
    loop
        invariant
            n == s@.len(),
            i < pos <= n,
            coords_wf(coords_views(items@)),
            can == exists|cs: Seq<CoordView>, rest: Seq<char>|
                s@.skip(i as int) == spec_coords_json(cs) + rest && coords_wf(cs),
            can ==> s@.skip(i as int) == spec_coords_json(cs0) + rest0 && coords_wf(cs0),
            can ==> 0 <= k < cs0.len(),
            can ==> coords_views(items@) == cs0.take(k),
            can ==> s@.skip(pos as int) == spec_coords_list(cs0.skip(k)) + ("]"@ + rest0),
        decreases n - pos,
    {
        let ghost elem_rest: Seq<char> = if can && k + 1 < cs0.len() {
            ","@ + (spec_coords_list(cs0.skip(k + 1)) + ("]"@ + rest0))
        } else {
            "]"@ + rest0
        };
        proof {
            reveal_strlit("[");
            reveal_strlit("]");
            reveal_strlit(",");
            if can {
                if k + 1 == cs0.len() {
                    assert(cs0.skip(k).len() == 1);
                    assert(cs0.skip(k)[0] == cs0[k]);
                    assert(spec_coords_list(cs0.skip(k)) == spec_coord_json(cs0[k]));
                    assert(s@.skip(pos as int) == spec_coord_json(cs0[k]) + elem_rest);
                } else {
                    assert(cs0.skip(k).len() > 1);
                    assert(cs0.skip(k)[0] == cs0[k]);
                    assert(cs0.skip(k).skip(1) =~= cs0.skip(k + 1));
                    assert(spec_coords_list(cs0.skip(k)) == spec_coord_json(cs0[k]) + ","@
                        + spec_coords_list(cs0.skip(k + 1)));
                    assert(spec_coord_json(cs0[k]) + ","@ + spec_coords_list(cs0.skip(k + 1)) + (
                    "]"@ + rest0) =~= spec_coord_json(cs0[k]) + elem_rest);
                    assert(s@.skip(pos as int) == spec_coord_json(cs0[k]) + elem_rest);
                }
                assert(coord_wf(cs0[k]));
            }
        }
        let elem = match parse_coord_at(s, pos) {
            Some(p) => p,
            None => {
                proof {
                    if can {
                        assert(false);
                    }
                }
                return None;
            },
        };
        proof {
            if can {
                lemma_peel(s@, pos as int, spec_coord_json(cs0[k]), elem_rest);
                assert(elem.0@ == cs0[k]);
            }
            assert(coords_views((items@).push(elem.0)) =~= coords_views(items@).push(elem.0@));
        }
        items.push(elem.0);
        pos = elem.1;
        proof {
            if can {
                assert(cs0.take(k + 1) =~= cs0.take(k).push(cs0[k]));
                assert(coords_views(items@) == cs0.take(k + 1));
            }
            assert(coords_wf(coords_views(items@))) by {
                assert forall|m: int| 0 <= m < coords_views(items@).len() implies coord_wf(
                    coords_views(items@)[m],
                ) by {
                    if m + 1 == coords_views(items@).len() {
                        assert(coords_views(items@)[m] == elem.0@);
                    }
                }
            }
        }
        if let Some(j2) = match_prefix(s, pos, ",") {
            proof {
                if can {
                    reveal_strlit(",");
                    reveal_strlit("]");
                    if k + 1 == cs0.len() {
                        assert(s@.skip(pos as int) == "]"@ + rest0);
                        assert(s@.skip(pos as int)[0] == ']');
                        assert(s@.subrange(pos as int, pos + ","@.len())[0] == s@[pos as int]);
                        assert(s@.skip(pos as int)[0] == s@[pos as int]);
                        assert(false);
                    }
                    assert(s@.skip(pos as int) == ","@ + (spec_coords_list(cs0.skip(k + 1)) + (
                    "]"@ + rest0)));
                    lemma_peel(
                        s@,
                        pos as int,
                        ","@,
                        spec_coords_list(cs0.skip(k + 1)) + ("]"@ + rest0),
                    );
                    k = k + 1;
                }
            }
            pos = j2;
        } else if let Some(j2) = match_prefix(s, pos, "]") {
            proof {
                if can {
                    reveal_strlit(",");
                    reveal_strlit("]");
                    if k + 1 < cs0.len() {
                        assert(s@.skip(pos as int) == ","@ + (spec_coords_list(cs0.skip(k + 1)) + (
                        "]"@ + rest0)));
                        assert(s@.skip(pos as int)[0] == ',');
                        assert(s@.subrange(pos as int, pos + "]"@.len())[0] == s@[pos as int]);
                        assert(s@.skip(pos as int)[0] == s@[pos as int]);
                        assert(false);
                    }
                    assert(s@.skip(pos as int) == "]"@ + rest0);
                    lemma_peel(s@, pos as int, "]"@, rest0);
                    assert(cs0.take(k + 1) =~= cs0);
                    assert(coords_views(items@) == cs0);
                    assert(s@.skip(i as int).len() == s@.len() - i);
                    assert(s@.skip(j2 as int).len() == s@.len() - j2);
                    assert(j2 == i + spec_coords_json(cs0).len());
                    assert forall|cs: Seq<CoordView>, rest: Seq<char>|
                        (s@.skip(i as int) == spec_coords_json(cs) + rest && coords_wf(cs)) implies
                        cs == cs0 && rest == rest0 by {
                        lemma_coords_json_unambiguous(cs, cs0, rest, rest0);
                    }
                }
            }
            return Some((items, j2));
        } else {
            proof {
                if can {
                    reveal_strlit(",");
                    reveal_strlit("]");
                    if k + 1 < cs0.len() {
                        assert(s@.skip(pos as int) == ","@ + (spec_coords_list(cs0.skip(k + 1)) + (
                        "]"@ + rest0)));
                        lemma_peel(
                            s@,
                            pos as int,
                            ","@,
                            spec_coords_list(cs0.skip(k + 1)) + ("]"@ + rest0),
                        );
                        assert(false);
                    }
                    assert(s@.skip(pos as int) == "]"@ + rest0);
                    lemma_peel(s@, pos as int, "]"@, rest0);
                    assert(false);
                }
            }
            return None;
        }
    }
}

/// Reads a whole analysis reply.  Returns the reply whose canonical text
/// `s` is, and nothing on any other text.
pub fn parse_image_response(s: &str) -> (r: Option<ImageResponse>)
    ensures
        r matches Some(resp) ==> resp_wf(resp@) && s@ == spec_image_response_json(resp@),
        r is None ==> forall|v: RespView| resp_wf(v) ==> s@ != spec_image_response_json(v),
{
    let ghost can = exists|v: RespView| resp_wf(v) && s@ == spec_image_response_json(v);
    let ghost v0: RespView = if can {
        choose|v: RespView| resp_wf(v) && s@ == spec_image_response_json(v)
    } else {
        arbitrary()
    };
    proof {
        if can {
            assert(s@.skip(0) =~= s@);
        }
    }
    let mut pos: usize = 0;
    proof {
        if can {
            lemma_peel(s@, 0, "{\"status\":"@, rj0(v0));
        }
    }
    pos = match match_prefix(s, pos, "{\"status\":") {
        Some(j) => j,
        None => {
            proof {
                if can {
                    assert(false);
                }
            }
            return None;
        },
    };
    proof {
        if can {
            reveal_strlit(",\"image\":");
            assert(rj1(v0)[0] == ',');
            assert(!num_char(','));
        }
    }
    let st_tok = match parse_num_token_at(s, pos) {
        Some(p) => p,
        None => {
            proof {
                if can {
                    assert(false);
                }
            }
            return None;
        },
    };
    proof {
        if can {
            lemma_peel(s@, pos as int, v0.status, rj1(v0));
        }
    }
    pos = st_tok.1;
    proof {
        if can {
            lemma_peel(s@, pos as int, ",\"image\":"@, rj2(v0));
        }
    }
    pos = match match_prefix(s, pos, ",\"image\":") {
        Some(j) => j,
        None => {
            proof {
                if can {
                    assert(false);
                }
            }
            return None;
        },
    };
    proof {
        if can {
            assert(s@.skip(pos as int) == spec_json_string(v0.image) + rj3(v0));
        }
    }
    let img = match parse_json_string_at(s, pos) {
        Some(p) => p,
        None => {
            proof {
                if can {
                    assert(false);
                }
            }
            return None;
        },
    };
    proof {
        if can {
            lemma_peel(s@, pos as int, spec_json_string(v0.image), rj3(v0));
        }
    }
    pos = img.1;
    proof {
        if can {
            lemma_peel(s@, pos as int, ",\"coordinates\":"@, rj4(v0));
        }
    }
    pos = match match_prefix(s, pos, ",\"coordinates\":") {
        Some(j) => j,
        None => {
            proof {
                if can {
                    assert(false);
                }
            }
            return None;
        },
    };
    proof {
        if can {
            assert(s@.skip(pos as int) == spec_coords_json(v0.coords) + rj5(v0));
        }
    }
    let crd = match parse_coords_at(s, pos) {
        Some(p) => p,
        None => {
            proof {
                if can {
                    assert(false);
                }
            }
            return None;
        },
    };
    let resp = ImageResponse { status: st_tok.0, image: img.0, image_result: crd.0 };
    let rebuilt = response_json(&resp);
    if str_eq(s, rebuilt.as_str()) {
        Some(resp)
    } else {
        proof {
            if can {
                assert(resp@ =~= v0);
                assert(false);
            }
        }
        None
    }
}

} // verus!
