//! Text-level building blocks of the persisted formats: the escaped string
//! form used inside the coordinator's object texts, and the facts that make
//! that form unambiguous — no two distinct strings share an encoding, and
//! an encoding followed by arbitrary text can be decoded only one way.

use vstd::prelude::*;

verus! {

/// The encoding of one character inside a quoted string: quote, backslash
/// and the three common control characters get a backslash escape, every
/// other character stands for itself.
pub open spec fn spec_esc_char(c: char) -> Seq<char> {
    if c == '"' {
        seq!['\\', '"']
    } else if c == '\\' {
        seq!['\\', '\\']
    } else if c == '\n' {
        seq!['\\', 'n']
    } else if c == '\r' {
        seq!['\\', 'r']
    } else if c == '\t' {
        seq!['\\', 't']
    } else {
        seq![c]
    }
}

/// A character that gets a two-character escape.
pub open spec fn is_escaped_char(c: char) -> bool {
    c == '"' || c == '\\' || c == '\n' || c == '\r' || c == '\t'
}

/// The escaped form of a whole string.
pub open spec fn spec_escape(s: Seq<char>) -> Seq<char>
    decreases s.len(),
{
    if s.len() == 0 {
        Seq::empty()
    } else {
        spec_esc_char(s[0]) + spec_escape(s.skip(1))
    }
}

/// The quoted form: the escaped text between two quote characters.
pub open spec fn spec_json_string(s: Seq<char>) -> Seq<char> {
    seq!['"'] + spec_escape(s) + seq!['"']
}

pub proof fn lemma_esc_char_props(c: char)
    ensures
        1 <= spec_esc_char(c).len() <= 2,
        spec_esc_char(c)[0] != '"',
        is_escaped_char(c) ==> spec_esc_char(c).len() == 2 && spec_esc_char(c)[0] == '\\',
        !is_escaped_char(c) ==> spec_esc_char(c) == seq![c],
{
}

/// Two escaped characters with the same two-character encoding are the
/// same character.
pub proof fn lemma_esc_char_injective(c1: char, c2: char)
    requires
        is_escaped_char(c1),
        is_escaped_char(c2),
        spec_esc_char(c1)[1] == spec_esc_char(c2)[1],
    ensures
        c1 == c2,
{
}

pub proof fn lemma_escape_append(a: Seq<char>, b: Seq<char>)
    ensures
        spec_escape(a + b) == spec_escape(a) + spec_escape(b),
    decreases a.len(),
{
    if a.len() == 0 {
        assert(a + b =~= b);
        assert(spec_escape(a) + spec_escape(b) =~= spec_escape(b));
    } else {
        assert((a + b)[0] == a[0]);
        assert((a + b).skip(1) =~= a.skip(1) + b);
        lemma_escape_append(a.skip(1), b);
        assert(spec_escape(a + b) =~= spec_escape(a) + spec_escape(b));
    }
}

pub proof fn lemma_escape_push(s: Seq<char>, c: char)
    ensures
        spec_escape(s.push(c)) == spec_escape(s) + spec_esc_char(c),
{
    assert(s.push(c) =~= s + seq![c]);
    lemma_escape_append(s, seq![c]);
    assert(seq![c].len() == 1);
    assert(seq![c][0] == c);
    assert(seq![c].skip(1) =~= Seq::<char>::empty());
    assert(spec_escape(seq![c]) == spec_esc_char(c) + spec_escape(seq![c].skip(1)));
    assert(spec_escape(Seq::<char>::empty()) =~= Seq::<char>::empty());
    assert(spec_escape(seq![c]) =~= spec_esc_char(c));
}

/// The escaped form of a prefix is a prefix of the escaped form.
pub proof fn lemma_escape_split(s: Seq<char>, k: int)
    requires
        0 <= k <= s.len(),
    ensures
        spec_escape(s) == spec_escape(s.take(k)) + spec_escape(s.skip(k)),
        spec_escape(s.take(k)).len() <= spec_escape(s).len(),
{
    assert(s =~= s.take(k) + s.skip(k));
    lemma_escape_append(s.take(k), s.skip(k));
}

/// Equal sequences with an equal prefix have equal tails.
pub proof fn lemma_concat_cancel(p: Seq<char>, x: Seq<char>, y: Seq<char>)
    requires
        p + x == p + y,
    ensures
        x == y,
{
    assert(x.len() == (p + x).len() - p.len());
    assert(y.len() == (p + y).len() - p.len());
    assert forall|i: int| 0 <= i < x.len() implies x[i] == y[i] by {
        assert((p + x)[p.len() + i] == x[i]);
        assert((p + y)[p.len() + i] == y[i]);
    }
    assert(x =~= y);
}

/// An escaped text up to its closing quote determines the decoded string
/// and the remainder: the decoding of the quoted form is unambiguous.
pub proof fn lemma_escaped_unambiguous(a: Seq<char>, b: Seq<char>, r1: Seq<char>, r2: Seq<char>)
    requires
        spec_escape(a) + seq!['"'] + r1 == spec_escape(b) + seq!['"'] + r2,
    ensures
        a == b,
        r1 == r2,
    decreases a.len(),
{
    let sa = spec_escape(a) + seq!['"'] + r1;
    let sb = spec_escape(b) + seq!['"'] + r2;
    if a.len() == 0 {
        assert(sa[0] == '"');
        if b.len() > 0 {
            lemma_esc_char_props(b[0]);
            assert(sb[0] == spec_esc_char(b[0])[0]);
            assert(false);
        }
        assert(seq!['"'] + r1 =~= seq!['"'] + r2) by {
            assert(spec_escape(a) + seq!['"'] + r1 =~= seq!['"'] + r1);
            assert(spec_escape(b) + seq!['"'] + r2 =~= seq!['"'] + r2);
        }
        lemma_concat_cancel(seq!['"'], r1, r2);
        assert(a =~= b);
    } else {
        if b.len() == 0 {
            lemma_esc_char_props(a[0]);
            assert(sa[0] == spec_esc_char(a[0])[0]);
            assert(sb[0] == '"');
            assert(false);
        }
        lemma_esc_char_props(a[0]);
        lemma_esc_char_props(b[0]);
        assert(sa =~= spec_esc_char(a[0]) + (spec_escape(a.skip(1)) + seq!['"'] + r1));
        assert(sb =~= spec_esc_char(b[0]) + (spec_escape(b.skip(1)) + seq!['"'] + r2));
        assert(sa[0] == spec_esc_char(a[0])[0]);
        assert(sb[0] == spec_esc_char(b[0])[0]);
        if is_escaped_char(a[0]) {
            if !is_escaped_char(b[0]) {
                assert(sb[0] == b[0]);
                assert(b[0] == '\\');
                assert(false);
            }
            assert(sa[1] == spec_esc_char(a[0])[1]);
            assert(sb[1] == spec_esc_char(b[0])[1]);
            lemma_esc_char_injective(a[0], b[0]);
        } else {
            if is_escaped_char(b[0]) {
                assert(sa[0] == a[0]);
                assert(a[0] == '\\');
                assert(false);
            }
        }
        assert(a[0] == b[0]);
        assert(spec_esc_char(a[0]) == spec_esc_char(b[0]));
        lemma_concat_cancel(
            spec_esc_char(a[0]),
            spec_escape(a.skip(1)) + seq!['"'] + r1,
            spec_escape(b.skip(1)) + seq!['"'] + r2,
        );
        lemma_escaped_unambiguous(a.skip(1), b.skip(1), r1, r2);
        assert(a.len() == b.len()) by {
            assert(a.skip(1).len() == b.skip(1).len());
        }
        assert forall|i: int| 0 <= i < a.len() implies a[i] == b[i] by {
            if i > 0 {
                assert(a.skip(1)[i - 1] == b.skip(1)[i - 1]);
            }
        }
        assert(a =~= b);
    }
}

/// A quoted form followed by arbitrary text has only one reading.
pub proof fn lemma_json_string_unambiguous(a: Seq<char>, b: Seq<char>, r1: Seq<char>, r2: Seq<char>)
    requires
        spec_json_string(a) + r1 == spec_json_string(b) + r2,
    ensures
        a == b,
        r1 == r2,
{
    assert(spec_json_string(a) + r1 =~= seq!['"'] + (spec_escape(a) + seq!['"'] + r1));
    assert(spec_json_string(b) + r2 =~= seq!['"'] + (spec_escape(b) + seq!['"'] + r2));
    lemma_concat_cancel(seq!['"'], spec_escape(a) + seq!['"'] + r1, spec_escape(b) + seq!['"'] + r2);
    lemma_escaped_unambiguous(a, b, r1, r2);
}

/// Character-for-character string comparison.
pub fn str_eq(a: &str, b: &str) -> (r: bool)
    ensures
        r == (a@ == b@),
{
    let la = a.unicode_len();
    let lb = b.unicode_len();
    if la != lb {
        return false;
    }
    let mut i: usize = 0;
    while i < la
        invariant
            la == a@.len(),
            la == b@.len(),
            0 <= i <= la,
            forall|j: int| 0 <= j < i ==> a@[j] == b@[j],
        decreases la - i,
    {
        if a.get_char(i) != b.get_char(i) {
            return false;
        }
        i += 1;
    }
    proof {
        assert(a@ =~= b@);
    }
    true
}

/// Appends the escaped form of `s` to `out`.
pub fn escape_into(out: &mut String, s: &str)
    ensures
        final(out)@ == old(out)@ + spec_escape(s@),
{
    let n = s.unicode_len();
    let mut i: usize = 0;
    proof {
        reveal_strlit("\\\"");
        reveal_strlit("\\\\");
        reveal_strlit("\\n");
        reveal_strlit("\\r");
        reveal_strlit("\\t");
        assert(out@ + spec_escape(s@.take(0)) =~= out@);
    }
    while i < n
        invariant
            n == s@.len(),
            0 <= i <= n,
            out@ == old(out)@ + spec_escape(s@.take(i as int)),
        decreases n - i,
    {
        let c = s.get_char(i);
        if c == '"' {
            out.append("\\\"");
        } else if c == '\\' {
            out.append("\\\\");
        } else if c == '\n' {
            out.append("\\n");
        } else if c == '\r' {
            out.append("\\r");
        } else if c == '\t' {
            out.append("\\t");
        } else {
            let piece = s.substring_char(i, i + 1);
            out.append(piece);
            proof {
                assert(piece@ =~= seq![s@[i as int]]);
            }
        }
        proof {
            reveal_strlit("\\\"");
            reveal_strlit("\\\\");
            reveal_strlit("\\n");
            reveal_strlit("\\r");
            reveal_strlit("\\t");
            assert(s@.take(i + 1) =~= s@.take(i as int).push(s@[i as int]));
            lemma_escape_push(s@.take(i as int), s@[i as int]);
            assert(out@ =~= old(out)@ + spec_escape(s@.take(i + 1)));
        }
        i += 1;
    }
    proof {
        assert(s@.take(n as int) =~= s@);
    }
}

/// Appends the quoted form of `s` to `out`.
pub fn append_json_string(out: &mut String, s: &str)
    ensures
        final(out)@ == old(out)@ + spec_json_string(s@),
{
    proof {
        reveal_strlit("\"");
    }
    out.append("\"");
    escape_into(out, s);
    out.append("\"");
    proof {
        assert(out@ =~= old(out)@ + spec_json_string(s@));
    }
}

/// Splitting a suffix of `s` at an inner position.
pub proof fn lemma_split_at(s: Seq<char>, i: int, j: int)
    requires
        0 <= i <= j <= s.len(),
    ensures
        s.skip(i) == s.subrange(i, j) + s.skip(j),
{
    assert(s.skip(i) =~= s.subrange(i, j) + s.skip(j));
}

/// Where a suffix of `s` starts with `lit`, the text up to `lit`'s end is
/// `lit` itself and the rest of the suffix follows it.
pub proof fn lemma_peel(s: Seq<char>, i: int, lit: Seq<char>, tail: Seq<char>)
    requires
        0 <= i <= s.len(),
        s.skip(i) == lit + tail,
    ensures
        i + lit.len() <= s.len(),
        s.subrange(i, i + lit.len()) == lit,
        s.skip(i + lit.len()) == tail,
{
    assert(s.skip(i).len() == s.len() - i);
    assert forall|j: int| 0 <= j < lit.len() implies s.subrange(i, i + lit.len())[j] == lit[j] by {
        assert(s.skip(i)[j] == s[i + j]);
        assert((lit + tail)[j] == lit[j]);
    }
    assert(s.subrange(i, i + lit.len()) =~= lit);
    assert forall|j: int| 0 <= j < tail.len() implies s.skip(i + lit.len())[j] == tail[j] by {
        assert(s.skip(i)[lit.len() + j] == s[i + lit.len() + j]);
        assert((lit + tail)[lit.len() + j] == tail[j]);
    }
    assert(s.skip(i + lit.len()) =~= tail);
}

proof fn lemma_escape_skip_unfold(t: Seq<char>, k: int)
    requires
        0 <= k < t.len(),
    ensures
        spec_escape(t.skip(k)) == spec_esc_char(t[k]) + spec_escape(t.skip(k + 1)),
{
    assert(t.skip(k).len() > 0);
    assert(t.skip(k)[0] == t[k]);
    assert(t.skip(k).skip(1) =~= t.skip(k + 1));
}

/// After the opening quote and the escaped form of the first `k`
/// characters, the rest of a quoted form still stands in `s`.
proof fn lemma_quoted_remaining(s: Seq<char>, i: int, t0: Seq<char>, rest0: Seq<char>, k: int)
    requires
        0 <= i <= s.len(),
        s.skip(i) == spec_json_string(t0) + rest0,
        0 <= k <= t0.len(),
    ensures
        s.len() == i + 2 + spec_escape(t0).len() + rest0.len(),
        spec_escape(t0.take(k)).len() <= spec_escape(t0).len(),
        s.skip(i + 1 + spec_escape(t0.take(k)).len()) == spec_escape(t0.skip(k)) + seq!['"']
            + rest0,
{
    lemma_escape_split(t0, k);
    let eklen = spec_escape(t0.take(k)).len();
    let rhs = spec_escape(t0.skip(k)) + seq!['"'] + rest0;
    assert(s.skip(i).len() == s.len() - i);
    assert(s.skip(i).len() == 2 + spec_escape(t0).len() + rest0.len());
    assert(s.skip(i + 1 + eklen).len() == rhs.len());
    assert forall|j: int| 0 <= j < rhs.len() implies s.skip(i + 1 + eklen)[j] == rhs[j] by {
        assert(s.skip(i + 1 + eklen)[j] == s[i + 1 + eklen + j]);
        assert(s.skip(i)[1 + eklen + j] == s[i + 1 + eklen + j]);
        assert(s.skip(i)[1 + eklen + j] == (spec_json_string(t0) + rest0)[1 + eklen + j]);
        assert(spec_escape(t0)[eklen + j] == (spec_escape(t0.take(k)) + spec_escape(t0.skip(k)))[
            eklen + j
        ]);
    }
    assert(s.skip(i + 1 + eklen) =~= rhs);
}

/// Reads a quoted, escaped string standing at position `i` of `s`,
/// returning its decoded text and the first position past the closing
/// quote.  Wherever a quoted form stands at `i`, the read succeeds and
/// returns exactly that form's text.
pub fn parse_json_string_at(s: &str, i: usize) -> (r: Option<(String, usize)>)
    requires
        i <= s@.len(),
    ensures
        r matches Some(p) ==> i < p.1 <= s@.len(),
        forall|t: Seq<char>, rest: Seq<char>|
            s@.skip(i as int) == spec_json_string(t) + rest ==> (r matches Some(p) && p.0@ == t
                && p.1 == i + spec_json_string(t).len()),
{
    let ghost can = exists|t: Seq<char>, rest: Seq<char>|
        s@.skip(i as int) == spec_json_string(t) + rest;
    let ghost (t0, rest0): (Seq<char>, Seq<char>) = if can {
        choose|t: Seq<char>, rest: Seq<char>| s@.skip(i as int) == spec_json_string(t) + rest
    } else {
        (Seq::empty(), Seq::empty())
    };
    let n = s.unicode_len();
    if i >= n {
        proof {
            if can {
                assert(s@.skip(i as int).len() == 0);
                assert((spec_json_string(t0) + rest0).len() >= 2);
                assert(false);
            }
        }
        return None;
    }
    let c0 = s.get_char(i);
    if c0 != '"' {
        proof {
            if can {
                assert(s@.skip(i as int)[0] == (spec_json_string(t0) + rest0)[0]);
                assert(s@[i as int] == '"');
                assert(false);
            }
        }
        return None;
    }
    let mut built = String::new();
    let mut pos: usize = i + 1;
    let ghost mut k: int = 0;
    proof {
        if can {
            assert(built@ =~= t0.take(0));
            assert(spec_escape(t0.take(0)) =~= Seq::<char>::empty());
        }
        reveal_strlit("\"");
        reveal_strlit("\\");
        reveal_strlit("\n");
        reveal_strlit("\r");
        reveal_strlit("\t");
    }
    while pos < n
        invariant
            n == s@.len(),
            i < pos <= n,
            can ==> s@.skip(i as int) == spec_json_string(t0) + rest0,
            can ==> 0 <= k <= t0.len(),
            can ==> built@ == t0.take(k),
            can ==> pos == i + 1 + spec_escape(t0.take(k)).len(),
            can == exists|t: Seq<char>, rest: Seq<char>|
                s@.skip(i as int) == spec_json_string(t) + rest,
        decreases n - pos,
    {
        proof {
            if can {
                lemma_quoted_remaining(s@, i as int, t0, rest0, k);
            }
        }
        let ghost rem = spec_escape(t0.skip(k)) + seq!['"'] + rest0;
        let c = s.get_char(pos);
        if c == '"' {
            proof {
                if can {
                    assert(s@[pos as int] == s@.skip(pos as int)[0]);
                    if k < t0.len() {
                        lemma_escape_skip_unfold(t0, k);
                        lemma_esc_char_props(t0[k]);
                        assert(rem[0] == spec_esc_char(t0[k])[0]);
                        assert(false);
                    }
                    assert(t0.take(k) =~= t0);
                    assert(spec_json_string(t0).len() == 2 + spec_escape(t0).len());
                    assert forall|t: Seq<char>, rest: Seq<char>|
                        s@.skip(i as int) == spec_json_string(t) + rest implies t == t0
                        && rest == rest0 by {
                        lemma_json_string_unambiguous(t, t0, rest, rest0);
                    }
                }
            }
            return Some((built, pos + 1));
        } else if c == '\\' {
            proof {
                if can {
                    assert(s@[pos as int] == s@.skip(pos as int)[0]);
                    if k == t0.len() {
                        assert(t0.skip(k).len() == 0);
                        assert(rem[0] == '"');
                        assert(false);
                    }
                    lemma_escape_skip_unfold(t0, k);
                    lemma_esc_char_props(t0[k]);
                    if !is_escaped_char(t0[k]) {
                        assert(rem[0] == t0[k]);
                        assert(t0[k] == '\\');
                        assert(false);
                    }
                    assert(rem.len() >= 3);
                    assert(s@.skip(pos as int).len() == n - pos);
                    assert(pos + 1 < n);
                    assert(s@[pos + 1] == s@.skip(pos as int)[1]);
                    assert(s@[pos + 1] == spec_esc_char(t0[k])[1]);
                }
            }
            if pos + 1 >= n {
                proof {
                    if can {
                        assert(false);
                    }
                }
                return None;
            }
            let c2 = s.get_char(pos + 1);
            if c2 == '"' {
                built.append("\"");
                proof {
                    reveal_strlit("\"");
                    if can {
                        lemma_esc_char_injective(t0[k], '"');
                        assert(built@ == t0.take(k) + seq![t0[k]]);
                    }
                }
            } else if c2 == '\\' {
                built.append("\\");
                proof {
                    reveal_strlit("\\");
                    if can {
                        lemma_esc_char_injective(t0[k], '\\');
                        assert(built@ == t0.take(k) + seq![t0[k]]);
                    }
                }
            } else if c2 == 'n' {
                built.append("\n");
                proof {
                    reveal_strlit("\n");
                    if can {
                        lemma_esc_char_injective(t0[k], '\n');
                        assert(built@ == t0.take(k) + seq![t0[k]]);
                    }
                }
            } else if c2 == 'r' {
                built.append("\r");
                proof {
                    reveal_strlit("\r");
                    if can {
                        lemma_esc_char_injective(t0[k], '\r');
                        assert(built@ == t0.take(k) + seq![t0[k]]);
                    }
                }
            } else if c2 == 't' {
                built.append("\t");
                proof {
                    reveal_strlit("\t");
                    if can {
                        lemma_esc_char_injective(t0[k], '\t');
                        assert(built@ == t0.take(k) + seq![t0[k]]);
                    }
                }
            } else {
                proof {
                    if can {
                        assert(is_escaped_char(t0[k]));
                        assert(spec_esc_char(t0[k])[1] == c2);
                        assert(false);
                    }
                }
                return None;
            }
            proof {
                if can {
                    assert(t0.take(k + 1) =~= t0.take(k).push(t0[k]));
                    lemma_escape_push(t0.take(k), t0[k]);
                    assert(built@ =~= t0.take(k + 1));
                    assert(spec_escape(t0.take(k + 1)).len() == spec_escape(t0.take(k)).len() + 2);
                }
                k = k + 1;
            }
            pos += 2;
        } else {
            let piece = s.substring_char(pos, pos + 1);
            built.append(piece);
            proof {
                assert(piece@ =~= seq![s@[pos as int]]);
                if can {
                    assert(s@[pos as int] == s@.skip(pos as int)[0]);
                    if k == t0.len() {
                        assert(t0.skip(k).len() == 0);
                        assert(rem[0] == '"');
                        assert(false);
                    }
                    lemma_escape_skip_unfold(t0, k);
                    lemma_esc_char_props(t0[k]);
                    if is_escaped_char(t0[k]) {
                        assert(rem[0] == '\\');
                        assert(false);
                    }
                    assert(rem[0] == t0[k]);
                    assert(t0[k] == c);
                    assert(t0.take(k + 1) =~= t0.take(k).push(t0[k]));
                    lemma_escape_push(t0.take(k), t0[k]);
                    assert(built@ =~= t0.take(k + 1));
                    assert(spec_escape(t0.take(k + 1)).len() == spec_escape(t0.take(k)).len() + 1);
                }
                k = k + 1;
            }
            pos += 1;
        }
    }
    proof {
        if can {
            lemma_quoted_remaining(s@, i as int, t0, rest0, k);
            assert(pos <= i + 1 + spec_escape(t0).len());
            assert(n >= i + 2 + spec_escape(t0).len());
            assert(false);
        }
    }
    None
}

/// Whether the text of `lit` stands at position `i` of `s`; on success the
/// returned index is the first position past it.
pub fn match_prefix(s: &str, i: usize, lit: &str) -> (r: Option<usize>)
    requires
        i <= s@.len(),
    ensures
        r matches Some(j) ==> j == i + lit@.len() && j <= s@.len() && s@.subrange(
            i as int,
            j as int,
        ) == lit@,
        r is None ==> !(i + lit@.len() <= s@.len() && s@.subrange(i as int, i + lit@.len())
            == lit@),
{
    let n = s.unicode_len();
    let m = lit.unicode_len();
    if m > n - i {
        return None;
    }
    let mut k: usize = 0;
    while k < m
        invariant
            n == s@.len(),
            m == lit@.len(),
            i + m <= n,
            0 <= k <= m,
            forall|t: int| 0 <= t < k ==> s@[i + t] == lit@[t],
        decreases m - k,
    {
        if s.get_char(i + k) != lit.get_char(k) {
            proof {
                if i + lit@.len() <= s@.len() && s@.subrange(i as int, i + lit@.len()) == lit@ {
                    assert(s@.subrange(i as int, i + lit@.len())[k as int] == s@[i + k]);
                    assert(false);
                }
            }
            return None;
        }
        k += 1;
    }
    proof {
        assert(s@.subrange(i as int, (i + m) as int) =~= lit@);
    }
    Some(i + m)
}

} // verus!
