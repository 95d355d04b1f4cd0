//! The persisted text of a checkpoint: a JSON object with the six stage
//! flags, the time of the last write, and the last error.  The writer
//! emits one canonical form, the reader accepts exactly that form, and
//! the form is injective — which together give the status round trip:
//! whatever the coordinator stored, a later status query decodes back.

use vstd::prelude::*;

use crate::text::{
    append_json_string, lemma_concat_cancel, lemma_json_string_unambiguous, lemma_peel,
    lemma_split_at, match_prefix, parse_json_string_at, spec_json_string, str_eq,
};
use crate::types::OperationState;

verus! {

/// The text of a boolean.
pub open spec fn spec_bool_str(b: bool) -> Seq<char> {
    if b {
        "true"@
    } else {
        "false"@
    }
}

// The checkpoint text, built right to left so that every suffix that the
// reader faces after consuming a prefix has a name.
pub open spec fn sj15(st: OperationState) -> Seq<char> {
    "}"@
}

pub open spec fn sj14(st: OperationState) -> Seq<char> {
    spec_json_string(st.error@) + sj15(st)
}

pub open spec fn sj13(st: OperationState) -> Seq<char> {
    ",\"error\":"@ + sj14(st)
}

pub open spec fn sj12(st: OperationState) -> Seq<char> {
    spec_json_string(st.time@) + sj13(st)
}

pub open spec fn sj11(st: OperationState) -> Seq<char> {
    ",\"time\":"@ + sj12(st)
}

pub open spec fn sj10(st: OperationState) -> Seq<char> {
    spec_bool_str(st.six) + sj11(st)
}

pub open spec fn sj09(st: OperationState) -> Seq<char> {
    ",\"six\":"@ + sj10(st)
}

pub open spec fn sj08(st: OperationState) -> Seq<char> {
    spec_bool_str(st.five) + sj09(st)
}

pub open spec fn sj07(st: OperationState) -> Seq<char> {
    ",\"five\":"@ + sj08(st)
}

pub open spec fn sj06(st: OperationState) -> Seq<char> {
    spec_bool_str(st.four) + sj07(st)
}

pub open spec fn sj05(st: OperationState) -> Seq<char> {
    ",\"four\":"@ + sj06(st)
}

pub open spec fn sj04(st: OperationState) -> Seq<char> {
    spec_bool_str(st.three) + sj05(st)
}

pub open spec fn sj03(st: OperationState) -> Seq<char> {
    ",\"three\":"@ + sj04(st)
}

pub open spec fn sj02(st: OperationState) -> Seq<char> {
    spec_bool_str(st.two) + sj03(st)
}

pub open spec fn sj01(st: OperationState) -> Seq<char> {
    ",\"two\":"@ + sj02(st)
}

pub open spec fn sj00(st: OperationState) -> Seq<char> {
    spec_bool_str(st.one) + sj01(st)
}

/// The canonical persisted text of a checkpoint.
pub open spec fn spec_state_json(st: OperationState) -> Seq<char> {
    "{\"one\":"@ + sj00(st)
}

/// A boolean text followed by arbitrary text has only one reading.
pub proof fn lemma_bool_token_unambiguous(b1: bool, b2: bool, r1: Seq<char>, r2: Seq<char>)
    requires
        spec_bool_str(b1) + r1 == spec_bool_str(b2) + r2,
    ensures
        b1 == b2,
        r1 == r2,
{
    reveal_strlit("true");
    reveal_strlit("false");
    if b1 != b2 {
        assert((spec_bool_str(b1) + r1)[0] == spec_bool_str(b1)[0]);
        assert((spec_bool_str(b2) + r2)[0] == spec_bool_str(b2)[0]);
        assert(false);
    }
    lemma_concat_cancel(spec_bool_str(b1), r1, r2);
}

/// No two distinct checkpoints share a persisted text.  Together with
/// `OperationState::from_json`'s contract this gives the status round
/// trip: decoding whatever text a run stored yields exactly the checkpoint
/// the run recorded — the stages reached so far and no others — and
/// decoding the same stored value any number of times yields the same
/// checkpoint every time.
pub proof fn lemma_state_json_injective(a: OperationState, b: OperationState)
    requires
        spec_state_json(a) == spec_state_json(b),
    ensures
        a.one == b.one,
        a.two == b.two,
        a.three == b.three,
        a.four == b.four,
        a.five == b.five,
        a.six == b.six,
        a.time@ == b.time@,
        a.error@ == b.error@,
{
    lemma_concat_cancel("{\"one\":"@, sj00(a), sj00(b));
    lemma_bool_token_unambiguous(a.one, b.one, sj01(a), sj01(b));
    lemma_concat_cancel(",\"two\":"@, sj02(a), sj02(b));
    lemma_bool_token_unambiguous(a.two, b.two, sj03(a), sj03(b));
    lemma_concat_cancel(",\"three\":"@, sj04(a), sj04(b));
    lemma_bool_token_unambiguous(a.three, b.three, sj05(a), sj05(b));
    lemma_concat_cancel(",\"four\":"@, sj06(a), sj06(b));
    lemma_bool_token_unambiguous(a.four, b.four, sj07(a), sj07(b));
    lemma_concat_cancel(",\"five\":"@, sj08(a), sj08(b));
    lemma_bool_token_unambiguous(a.five, b.five, sj09(a), sj09(b));
    lemma_concat_cancel(",\"six\":"@, sj10(a), sj10(b));
    lemma_bool_token_unambiguous(a.six, b.six, sj11(a), sj11(b));
    lemma_concat_cancel(",\"time\":"@, sj12(a), sj12(b));
    lemma_json_string_unambiguous(a.time@, b.time@, sj13(a), sj13(b));
    lemma_concat_cancel(",\"error\":"@, sj14(a), sj14(b));
    lemma_json_string_unambiguous(a.error@, b.error@, sj15(a), sj15(b));
}

proof fn lemma_concat_assoc(a: Seq<char>, b: Seq<char>, c: Seq<char>)
    ensures
        a + b + c == a + (b + c),
{
    assert(a + b + c =~= a + (b + c));
}

/// The canonical text, flattened: what a writer that appends piece by
/// piece produces.
proof fn lemma_state_json_flat(st: OperationState)
    ensures
        spec_state_json(st) == "{\"one\":"@ + spec_bool_str(st.one) + ",\"two\":"@ + spec_bool_str(
            st.two,
        ) + ",\"three\":"@ + spec_bool_str(st.three) + ",\"four\":"@ + spec_bool_str(st.four)
            + ",\"five\":"@ + spec_bool_str(st.five) + ",\"six\":"@ + spec_bool_str(st.six)
            + ",\"time\":"@ + spec_json_string(st.time@) + ",\"error\":"@ + spec_json_string(
            st.error@,
        ) + "}"@,
{
    assert(spec_state_json(st) == "{\"one\":"@ + sj00(st));
    lemma_concat_assoc("{\"one\":"@, spec_bool_str(st.one), sj01(st));
    assert(spec_state_json(st) == "{\"one\":"@ + spec_bool_str(st.one) + sj01(st));
    lemma_concat_assoc("{\"one\":"@ + spec_bool_str(st.one), ",\"two\":"@, sj02(st));
    assert(spec_state_json(st) == "{\"one\":"@ + spec_bool_str(st.one) + ",\"two\":"@ + sj02(st));
    lemma_concat_assoc("{\"one\":"@ + spec_bool_str(st.one) + ",\"two\":"@, spec_bool_str(st.two), sj03(st));
    assert(spec_state_json(st) == "{\"one\":"@ + spec_bool_str(st.one) + ",\"two\":"@ + spec_bool_str(st.two) + sj03(st));
    lemma_concat_assoc("{\"one\":"@ + spec_bool_str(st.one) + ",\"two\":"@ + spec_bool_str(st.two), ",\"three\":"@, sj04(st));
    assert(spec_state_json(st) == "{\"one\":"@ + spec_bool_str(st.one) + ",\"two\":"@ + spec_bool_str(st.two) + ",\"three\":"@ + sj04(st));
    lemma_concat_assoc("{\"one\":"@ + spec_bool_str(st.one) + ",\"two\":"@ + spec_bool_str(st.two) + ",\"three\":"@, spec_bool_str(st.three), sj05(st));
    assert(spec_state_json(st) == "{\"one\":"@ + spec_bool_str(st.one) + ",\"two\":"@ + spec_bool_str(st.two) + ",\"three\":"@ + spec_bool_str(st.three) + sj05(st));
    lemma_concat_assoc("{\"one\":"@ + spec_bool_str(st.one) + ",\"two\":"@ + spec_bool_str(st.two) + ",\"three\":"@ + spec_bool_str(st.three), ",\"four\":"@, sj06(st));
    assert(spec_state_json(st) == "{\"one\":"@ + spec_bool_str(st.one) + ",\"two\":"@ + spec_bool_str(st.two) + ",\"three\":"@ + spec_bool_str(st.three) + ",\"four\":"@ + sj06(st));
    lemma_concat_assoc("{\"one\":"@ + spec_bool_str(st.one) + ",\"two\":"@ + spec_bool_str(st.two) + ",\"three\":"@ + spec_bool_str(st.three) + ",\"four\":"@, spec_bool_str(st.four), sj07(st));
    assert(spec_state_json(st) == "{\"one\":"@ + spec_bool_str(st.one) + ",\"two\":"@ + spec_bool_str(st.two) + ",\"three\":"@ + spec_bool_str(st.three) + ",\"four\":"@ + spec_bool_str(st.four) + sj07(st));
    lemma_concat_assoc("{\"one\":"@ + spec_bool_str(st.one) + ",\"two\":"@ + spec_bool_str(st.two) + ",\"three\":"@ + spec_bool_str(st.three) + ",\"four\":"@ + spec_bool_str(st.four), ",\"five\":"@, sj08(st));
    assert(spec_state_json(st) == "{\"one\":"@ + spec_bool_str(st.one) + ",\"two\":"@ + spec_bool_str(st.two) + ",\"three\":"@ + spec_bool_str(st.three) + ",\"four\":"@ + spec_bool_str(st.four) + ",\"five\":"@ + sj08(st));
    lemma_concat_assoc("{\"one\":"@ + spec_bool_str(st.one) + ",\"two\":"@ + spec_bool_str(st.two) + ",\"three\":"@ + spec_bool_str(st.three) + ",\"four\":"@ + spec_bool_str(st.four) + ",\"five\":"@, spec_bool_str(st.five), sj09(st));
    assert(spec_state_json(st) == "{\"one\":"@ + spec_bool_str(st.one) + ",\"two\":"@ + spec_bool_str(st.two) + ",\"three\":"@ + spec_bool_str(st.three) + ",\"four\":"@ + spec_bool_str(st.four) + ",\"five\":"@ + spec_bool_str(st.five) + sj09(st));
    lemma_concat_assoc("{\"one\":"@ + spec_bool_str(st.one) + ",\"two\":"@ + spec_bool_str(st.two) + ",\"three\":"@ + spec_bool_str(st.three) + ",\"four\":"@ + spec_bool_str(st.four) + ",\"five\":"@ + spec_bool_str(st.five), ",\"six\":"@, sj10(st));
    assert(spec_state_json(st) == "{\"one\":"@ + spec_bool_str(st.one) + ",\"two\":"@ + spec_bool_str(st.two) + ",\"three\":"@ + spec_bool_str(st.three) + ",\"four\":"@ + spec_bool_str(st.four) + ",\"five\":"@ + spec_bool_str(st.five) + ",\"six\":"@ + sj10(st));
    lemma_concat_assoc("{\"one\":"@ + spec_bool_str(st.one) + ",\"two\":"@ + spec_bool_str(st.two) + ",\"three\":"@ + spec_bool_str(st.three) + ",\"four\":"@ + spec_bool_str(st.four) + ",\"five\":"@ + spec_bool_str(st.five) + ",\"six\":"@, spec_bool_str(st.six), sj11(st));
    assert(spec_state_json(st) == "{\"one\":"@ + spec_bool_str(st.one) + ",\"two\":"@ + spec_bool_str(st.two) + ",\"three\":"@ + spec_bool_str(st.three) + ",\"four\":"@ + spec_bool_str(st.four) + ",\"five\":"@ + spec_bool_str(st.five) + ",\"six\":"@ + spec_bool_str(st.six) + sj11(st));
    lemma_concat_assoc("{\"one\":"@ + spec_bool_str(st.one) + ",\"two\":"@ + spec_bool_str(st.two) + ",\"three\":"@ + spec_bool_str(st.three) + ",\"four\":"@ + spec_bool_str(st.four) + ",\"five\":"@ + spec_bool_str(st.five) + ",\"six\":"@ + spec_bool_str(st.six), ",\"time\":"@, sj12(st));
    assert(spec_state_json(st) == "{\"one\":"@ + spec_bool_str(st.one) + ",\"two\":"@ + spec_bool_str(st.two) + ",\"three\":"@ + spec_bool_str(st.three) + ",\"four\":"@ + spec_bool_str(st.four) + ",\"five\":"@ + spec_bool_str(st.five) + ",\"six\":"@ + spec_bool_str(st.six) + ",\"time\":"@ + sj12(st));
    lemma_concat_assoc("{\"one\":"@ + spec_bool_str(st.one) + ",\"two\":"@ + spec_bool_str(st.two) + ",\"three\":"@ + spec_bool_str(st.three) + ",\"four\":"@ + spec_bool_str(st.four) + ",\"five\":"@ + spec_bool_str(st.five) + ",\"six\":"@ + spec_bool_str(st.six) + ",\"time\":"@, spec_json_string(st.time@), sj13(st));
    assert(spec_state_json(st) == "{\"one\":"@ + spec_bool_str(st.one) + ",\"two\":"@ + spec_bool_str(st.two) + ",\"three\":"@ + spec_bool_str(st.three) + ",\"four\":"@ + spec_bool_str(st.four) + ",\"five\":"@ + spec_bool_str(st.five) + ",\"six\":"@ + spec_bool_str(st.six) + ",\"time\":"@ + spec_json_string(st.time@) + sj13(st));
    lemma_concat_assoc("{\"one\":"@ + spec_bool_str(st.one) + ",\"two\":"@ + spec_bool_str(st.two) + ",\"three\":"@ + spec_bool_str(st.three) + ",\"four\":"@ + spec_bool_str(st.four) + ",\"five\":"@ + spec_bool_str(st.five) + ",\"six\":"@ + spec_bool_str(st.six) + ",\"time\":"@ + spec_json_string(st.time@), ",\"error\":"@, sj14(st));
    assert(spec_state_json(st) == "{\"one\":"@ + spec_bool_str(st.one) + ",\"two\":"@ + spec_bool_str(st.two) + ",\"three\":"@ + spec_bool_str(st.three) + ",\"four\":"@ + spec_bool_str(st.four) + ",\"five\":"@ + spec_bool_str(st.five) + ",\"six\":"@ + spec_bool_str(st.six) + ",\"time\":"@ + spec_json_string(st.time@) + ",\"error\":"@ + sj14(st));
    lemma_concat_assoc("{\"one\":"@ + spec_bool_str(st.one) + ",\"two\":"@ + spec_bool_str(st.two) + ",\"three\":"@ + spec_bool_str(st.three) + ",\"four\":"@ + spec_bool_str(st.four) + ",\"five\":"@ + spec_bool_str(st.five) + ",\"six\":"@ + spec_bool_str(st.six) + ",\"time\":"@ + spec_json_string(st.time@) + ",\"error\":"@, spec_json_string(st.error@), sj15(st));
    assert(spec_state_json(st) == "{\"one\":"@ + spec_bool_str(st.one) + ",\"two\":"@ + spec_bool_str(st.two) + ",\"three\":"@ + spec_bool_str(st.three) + ",\"four\":"@ + spec_bool_str(st.four) + ",\"five\":"@ + spec_bool_str(st.five) + ",\"six\":"@ + spec_bool_str(st.six) + ",\"time\":"@ + spec_json_string(st.time@) + ",\"error\":"@ + spec_json_string(st.error@) + sj15(st));
    assert(spec_state_json(st) == "{\"one\":"@ + spec_bool_str(st.one) + ",\"two\":"@ + spec_bool_str(st.two) + ",\"three\":"@ + spec_bool_str(st.three) + ",\"four\":"@ + spec_bool_str(st.four) + ",\"five\":"@ + spec_bool_str(st.five) + ",\"six\":"@ + spec_bool_str(st.six) + ",\"time\":"@ + spec_json_string(st.time@) + ",\"error\":"@ + spec_json_string(st.error@) + "}"@);
}

/// Appends the text of a boolean.
fn append_bool(out: &mut String, b: bool)
    ensures
        final(out)@ == old(out)@ + spec_bool_str(b),
{
    if b {
        out.append("true");
    } else {
        out.append("false");
    }
}

/// Reads a boolean text standing at position `i` of `s`.
pub fn parse_bool_at(s: &str, i: usize) -> (r: Option<(bool, usize)>)
    requires
        i <= s@.len(),
    ensures
        r matches Some(p) ==> p.1 == i + spec_bool_str(p.0).len() && p.1 <= s@.len()
            && s@.subrange(i as int, p.1 as int) == spec_bool_str(p.0),
        r is None ==> forall|b: bool|
            !(i + spec_bool_str(b).len() <= s@.len() && s@.subrange(
                i as int,
                i + spec_bool_str(b).len(),
            ) == spec_bool_str(b)),
{
    if let Some(j) = match_prefix(s, i, "true") {
        return Some((true, j));
    }
    if let Some(j) = match_prefix(s, i, "false") {
        return Some((false, j));
    }
    None
}

impl OperationState {
    /// The canonical persisted text of this checkpoint.
    #[verifier::rlimit(100)]
    pub fn to_json(&self) -> (r: String)
        ensures
            r@ == spec_state_json(*self),
    {
        let mut out = String::from_str("{\"one\":");
        append_bool(&mut out, self.one);
        out.append(",\"two\":");
        append_bool(&mut out, self.two);
        out.append(",\"three\":");
        append_bool(&mut out, self.three);
        out.append(",\"four\":");
        append_bool(&mut out, self.four);
        out.append(",\"five\":");
        append_bool(&mut out, self.five);
        out.append(",\"six\":");
        append_bool(&mut out, self.six);
        out.append(",\"time\":");
        append_json_string(&mut out, self.time.as_str());
        out.append(",\"error\":");
        append_json_string(&mut out, self.error.as_str());
        out.append("}");
        proof {
            lemma_state_json_flat(*self);
        }
        out
    }

    /// Decodes a persisted checkpoint text.  Returns the checkpoint whose
    /// canonical text `s` is, and nothing on any other text.
    #[verifier::rlimit(100)]
    pub fn from_json(s: &str) -> (r: Option<OperationState>)
        ensures
            r matches Some(st) ==> s@ == spec_state_json(st),
            r is None ==> forall|st: OperationState| s@ != spec_state_json(st),
    {
        let ghost can = exists|st: OperationState| s@ == spec_state_json(st);
        let ghost st0: OperationState = if can {
            choose|st: OperationState| s@ == spec_state_json(st)
        } else {
            arbitrary()
        };
        proof {
            if can {
                assert(s@.skip(0) =~= s@);
            }
        }
        let mut pos: usize = 0;

        proof {
            if can {
                lemma_peel(s@, pos as int, "{\"one\":"@, sj00(st0));
            }
        }
        pos = match match_prefix(s, pos, "{\"one\":") {
            Some(j) => j,
            None => {
                proof {
                    if can {
                        assert(false);
                    }
                }
                return None;
            },
        };
        proof {
            if can {
                lemma_peel(s@, pos as int, spec_bool_str(st0.one), sj01(st0));
            }
        }
        let b_one = match parse_bool_at(s, pos) {
            Some(p) => p,
            None => {
                proof {
                    if can {
                        assert(false);
                    }
                }
                return None;
            },
        };
        proof {
            if can {
                lemma_split_at(s@, pos as int, b_one.1 as int);
                assert(s@.skip(pos as int) == spec_bool_str(b_one.0) + s@.skip(b_one.1 as int));
                lemma_bool_token_unambiguous(b_one.0, st0.one, s@.skip(b_one.1 as int), sj01(st0));
            }
        }
        pos = b_one.1;

        proof {
            if can {
                lemma_peel(s@, pos as int, ",\"two\":"@, sj02(st0));
            }
        }
        pos = match match_prefix(s, pos, ",\"two\":") {
            Some(j) => j,
            None => {
                proof {
                    if can {
                        assert(false);
                    }
                }
                return None;
            },
        };
        proof {
            if can {
                lemma_peel(s@, pos as int, spec_bool_str(st0.two), sj03(st0));
            }
        }
        let b_two = match parse_bool_at(s, pos) {
            Some(p) => p,
            None => {
                proof {
                    if can {
                        assert(false);
                    }
                }
                return None;
            },
        };
        proof {
            if can {
                lemma_split_at(s@, pos as int, b_two.1 as int);
                assert(s@.skip(pos as int) == spec_bool_str(b_two.0) + s@.skip(b_two.1 as int));
                lemma_bool_token_unambiguous(b_two.0, st0.two, s@.skip(b_two.1 as int), sj03(st0));
            }
        }
        pos = b_two.1;

        proof {
            if can {
                lemma_peel(s@, pos as int, ",\"three\":"@, sj04(st0));
            }
        }
        pos = match match_prefix(s, pos, ",\"three\":") {
            Some(j) => j,
            None => {
                proof {
                    if can {
                        assert(false);
                    }
                }
                return None;
            },
        };
        proof {
            if can {
                lemma_peel(s@, pos as int, spec_bool_str(st0.three), sj05(st0));
            }
        }
        let b_three = match parse_bool_at(s, pos) {
            Some(p) => p,
            None => {
                proof {
                    if can {
                        assert(false);
                    }
                }
                return None;
            },
        };
        proof {
            if can {
                lemma_split_at(s@, pos as int, b_three.1 as int);
                assert(s@.skip(pos as int) == spec_bool_str(b_three.0) + s@.skip(
                    b_three.1 as int,
                ));
                lemma_bool_token_unambiguous(
                    b_three.0,
                    st0.three,
                    s@.skip(b_three.1 as int),
                    sj05(st0),
                );
            }
        }
        pos = b_three.1;

        proof {
            if can {
                lemma_peel(s@, pos as int, ",\"four\":"@, sj06(st0));
            }
        }
        pos = match match_prefix(s, pos, ",\"four\":") {
            Some(j) => j,
            None => {
                proof {
                    if can {
                        assert(false);
                    }
                }
                return None;
            },
        };
        proof {
            if can {
                lemma_peel(s@, pos as int, spec_bool_str(st0.four), sj07(st0));
            }
        }
        let b_four = match parse_bool_at(s, pos) {
            Some(p) => p,
            None => {
                proof {
                    if can {
                        assert(false);
                    }
                }
                return None;
            },
        };
        proof {
            if can {
                lemma_split_at(s@, pos as int, b_four.1 as int);
                assert(s@.skip(pos as int) == spec_bool_str(b_four.0) + s@.skip(b_four.1 as int));
                lemma_bool_token_unambiguous(
                    b_four.0,
                    st0.four,
                    s@.skip(b_four.1 as int),
                    sj07(st0),
                );
            }
        }
        pos = b_four.1;

        proof {
            if can {
                lemma_peel(s@, pos as int, ",\"five\":"@, sj08(st0));
            }
        }
        pos = match match_prefix(s, pos, ",\"five\":") {
            Some(j) => j,
            None => {
                proof {
                    if can {
                        assert(false);
                    }
                }
                return None;
            },
        };
        proof {
            if can {
                lemma_peel(s@, pos as int, spec_bool_str(st0.five), sj09(st0));
            }
        }
        let b_five = match parse_bool_at(s, pos) {
            Some(p) => p,
            None => {
                proof {
                    if can {
                        assert(false);
                    }
                }
                return None;
            },
        };
        proof {
            if can {
                lemma_split_at(s@, pos as int, b_five.1 as int);
                assert(s@.skip(pos as int) == spec_bool_str(b_five.0) + s@.skip(b_five.1 as int));
                lemma_bool_token_unambiguous(
                    b_five.0,
                    st0.five,
                    s@.skip(b_five.1 as int),
                    sj09(st0),
                );
            }
        }
        pos = b_five.1;

        proof {
            if can {
                lemma_peel(s@, pos as int, ",\"six\":"@, sj10(st0));
            }
        }
        pos = match match_prefix(s, pos, ",\"six\":") {
            Some(j) => j,
            None => {
                proof {
                    if can {
                        assert(false);
                    }
                }
                return None;
            },
        };
        proof {
            if can {
                lemma_peel(s@, pos as int, spec_bool_str(st0.six), sj11(st0));
            }
        }
        let b_six = match parse_bool_at(s, pos) {
            Some(p) => p,
            None => {
                proof {
                    if can {
                        assert(false);
                    }
                }
                return None;
            },
        };
        proof {
            if can {
                lemma_split_at(s@, pos as int, b_six.1 as int);
                assert(s@.skip(pos as int) == spec_bool_str(b_six.0) + s@.skip(b_six.1 as int));
                lemma_bool_token_unambiguous(b_six.0, st0.six, s@.skip(b_six.1 as int), sj11(st0));
            }
        }
        pos = b_six.1;

        proof {
            if can {
                lemma_peel(s@, pos as int, ",\"time\":"@, sj12(st0));
            }
        }
        pos = match match_prefix(s, pos, ",\"time\":") {
            Some(j) => j,
            None => {
                proof {
                    if can {
                        assert(false);
                    }
                }
                return None;
            },
        };
        proof {
            if can {
                assert(s@.skip(pos as int) == spec_json_string(st0.time@) + sj13(st0));
            }
        }
        let time_p = match parse_json_string_at(s, pos) {
            Some(p) => p,
            None => {
                proof {
                    if can {
                        assert(false);
                    }
                }
                return None;
            },
        };
        proof {
            if can {
                lemma_peel(s@, pos as int, spec_json_string(st0.time@), sj13(st0));
                assert(time_p.0@ == st0.time@);
                assert(s@.skip(time_p.1 as int) == sj13(st0));
            }
        }
        pos = time_p.1;

        proof {
            if can {
                lemma_peel(s@, pos as int, ",\"error\":"@, sj14(st0));
            }
        }
        pos = match match_prefix(s, pos, ",\"error\":") {
            Some(j) => j,
            None => {
                proof {
                    if can {
                        assert(false);
                    }
                }
                return None;
            },
        };
        proof {
            if can {
                assert(s@.skip(pos as int) == spec_json_string(st0.error@) + sj15(st0));
            }
        }
        let err_p = match parse_json_string_at(s, pos) {
            Some(p) => p,
            None => {
                proof {
                    if can {
                        assert(false);
                    }
                }
                return None;
            },
        };
        proof {
            if can {
                assert(err_p.0@ == st0.error@);
            }
        }

        // rebuild the canonical text and accept only an exact match
        let st = OperationState {
            one: b_one.0,
            two: b_two.0,
            three: b_three.0,
            four: b_four.0,
            five: b_five.0,
            six: b_six.0,
            time: time_p.0,
            error: err_p.0,
        };
        let rebuilt = st.to_json();
        if str_eq(s, rebuilt.as_str()) {
            Some(st)
        } else {
            proof {
                if can {
                    assert(spec_state_json(st) == spec_state_json(st0));
                    assert(false);
                }
            }
            None
        }
    }
}

} // verus!
