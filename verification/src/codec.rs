//! Wire codec for the positional-array frame format.
//!
//! A frame is a JSON array rendered as UTF-8 text: `[2,"id","action",payload]`
//! (Call), `[3,"id",payload]` (CallResult) or
//! `[4,"id","code","description",details]` (CallError).  The decoder accepts
//! JSON's insignificant whitespace around the array's delimiters.  The
//! strings in the envelope (id, action, error code and description) carry no
//! quote character; the trailing payload element is taken verbatim from
//! after the last comma up to the closing bracket.

use vstd::prelude::*;

verus! {

/// A protocol frame in its mathematical form: each field is the character
/// sequence that stands between the delimiters on the wire.
pub enum FrameS {
    Call { id: Seq<char>, action: Seq<char>, payload: Seq<char> },
    CallResult { id: Seq<char>, payload: Seq<char> },
    CallError { id: Seq<char>, code: Seq<char>, description: Seq<char>, details: Seq<char> },
}

/// A decoded protocol frame.
pub enum Frame {
    Call { id: String, action: String, payload: String },
    CallResult { id: String, payload: String },
    CallError { id: String, code: String, description: String, details: String },
}

impl View for Frame {
    type V = FrameS;

    open spec fn view(&self) -> FrameS {
        match self {
            Frame::Call { id, action, payload } => FrameS::Call {
                id: id@,
                action: action@,
                payload: payload@,
            },
            Frame::CallResult { id, payload } => FrameS::CallResult {
                id: id@,
                payload: payload@,
            },
            Frame::CallError { id, code, description, details } => FrameS::CallError {
                id: id@,
                code: code@,
                description: description@,
                details: details@,
            },
        }
    }
}

/// Holds of an envelope string that the codec can frame unambiguously.
pub open spec fn no_quote(s: Seq<char>) -> bool {
    forall|i: int| 0 <= i < s.len() ==> s[i] != '"'
}

/// JSON's insignificant whitespace.
pub open spec fn is_ws(c: char) -> bool {
    c == ' ' || c == '\t' || c == '\n' || c == '\r'
}

/// Number of characters from `from` (inclusive) to the first quote, or to
/// the end of `s` if no quote follows.
pub open spec fn quote_dist(s: Seq<char>, from: int) -> nat
    decreases s.len() - from when from <= s.len()
{
    if from < 0 || from >= s.len() {
        0
    } else if s[from] == '"' {
        0
    } else {
        1 + quote_dist(s, from + 1)
    }
}

/// Index of the first quote at or after `from`, or `s.len()` if none.
pub open spec fn find_quote(s: Seq<char>, from: int) -> int {
    from + quote_dist(s, from)
}

pub proof fn lemma_find_quote(s: Seq<char>, from: int)
    requires
        0 <= from <= s.len(),
    ensures
        from <= find_quote(s, from) <= s.len(),
        find_quote(s, from) < s.len() ==> s[find_quote(s, from)] == '"',
        forall|j: int| from <= j < find_quote(s, from) ==> s[j] != '"',
    decreases s.len() - from,
{
    if from < s.len() && s[from] != '"' {
        lemma_find_quote(s, from + 1);
    }
}

pub proof fn lemma_find_quote_at(s: Seq<char>, from: int, k: int)
    requires
        0 <= from <= k < s.len(),
        forall|j: int| from <= j < k ==> s[j] != '"',
        s[k] == '"',
    ensures
        find_quote(s, from) == k,
    decreases k - from,
{
    if from < k {
        lemma_find_quote_at(s, from + 1, k);
    }
}

/// Number of whitespace characters at `from`.
pub open spec fn ws_dist(s: Seq<char>, from: int) -> nat
    decreases s.len() - from when from <= s.len()
{
    if from < 0 || from >= s.len() {
        0
    } else if !is_ws(s[from]) {
        0
    } else {
        1 + ws_dist(s, from + 1)
    }
}

/// Index of the first non-whitespace character at or after `from`, or
/// `s.len()` if only whitespace follows.
pub open spec fn skip_ws(s: Seq<char>, from: int) -> int {
    from + ws_dist(s, from)
}

pub proof fn lemma_skip_ws(s: Seq<char>, from: int)
    requires
        0 <= from <= s.len(),
    ensures
        from <= skip_ws(s, from) <= s.len(),
        skip_ws(s, from) < s.len() ==> !is_ws(s[skip_ws(s, from)]),
        forall|j: int| from <= j < skip_ws(s, from) ==> is_ws(s[j]),
    decreases s.len() - from,
{
    if from < s.len() && is_ws(s[from]) {
        lemma_skip_ws(s, from + 1);
    }
}

pub proof fn lemma_skip_ws_at(s: Seq<char>, from: int, k: int)
    requires
        0 <= from <= k < s.len(),
        forall|j: int| from <= j < k ==> is_ws(s[j]),
        !is_ws(s[k]),
    ensures
        skip_ws(s, from) == k,
    decreases k - from,
{
    if from < k {
        lemma_skip_ws_at(s, from + 1, k);
    }
}

/// Number of whitespace characters at the end of `s`.
pub open spec fn trail_ws(s: Seq<char>) -> nat
    decreases s.len(),
{
    if s.len() == 0 {
        0
    } else if is_ws(s.last()) {
        1 + trail_ws(s.drop_last())
    } else {
        0
    }
}

pub proof fn lemma_trail_ws_at(s: Seq<char>, j: int)
    requires
        0 <= j <= s.len(),
        forall|k: int| j <= k < s.len() ==> is_ws(s[k]),
        j == 0 || !is_ws(s[j - 1]),
    ensures
        trail_ws(s) == s.len() - j,
    decreases s.len(),
{
    if s.len() > 0 {
        if is_ws(s.last()) {
            assert(j < s.len());
            lemma_trail_ws_at(s.drop_last(), j);
        } else {
            if j < s.len() {
                assert(is_ws(s[s.len() - 1]));
            }
        }
    }
}

pub proof fn lemma_trail_ws_bound(s: Seq<char>, b: int)
    requires
        0 <= b < s.len(),
        !is_ws(s[b]),
    ensures
        trail_ws(s) <= s.len() - 1 - b,
    decreases s.len(),
{
    if is_ws(s.last()) {
        lemma_trail_ws_bound(s.drop_last(), b);
    }
}

/// Index of the first quote at or after `from`, or the character count of
/// `s` if no quote follows.
pub fn find_quote_str(s: &str, from: usize) -> (r: usize)
    requires
        from <= s@.len(),
    ensures
        r == find_quote(s@, from as int),
{
    let n = s.unicode_len();
    let mut i = from;
    while i < n
        invariant
            from <= i <= n,
            n == s@.len(),
            forall|j: int| from <= j < i ==> s@[j] != '"',
        decreases n - i,
    {
        if s.get_char(i) == '"' {
            proof {
                lemma_find_quote_at(s@, from as int, i as int);
            }
            return i;
        }
        i += 1;
    }
    proof {
        lemma_find_quote(s@, from as int);
    }
    n
}

/// Index of the first non-whitespace character at or after `from`, or the
/// character count of `s` if only whitespace follows.
pub fn skip_ws_str(s: &str, from: usize) -> (r: usize)
    requires
        from <= s@.len(),
    ensures
        r == skip_ws(s@, from as int),
        r <= s@.len(),
{
    let n = s.unicode_len();
    let mut i = from;
    while i < n
        invariant
            from <= i <= n,
            n == s@.len(),
            forall|j: int| from <= j < i ==> is_ws(s@[j]),
        decreases n - i,
    {
        let c = s.get_char(i);
        if !(c == ' ' || c == '\t' || c == '\n' || c == '\r') {
            proof {
                lemma_skip_ws_at(s@, from as int, i as int);
            }
            return i;
        }
        i += 1;
    }
    proof {
        lemma_skip_ws(s@, from as int);
    }
    n
}

/// Number of whitespace characters at the end of `s`.
pub fn trail_ws_str(s: &str) -> (r: usize)
    ensures
        r == trail_ws(s@),
        r <= s@.len(),
{
    let n = s.unicode_len();
    let mut j = n;
    while j > 0
        invariant
            j <= n,
            n == s@.len(),
            forall|k: int| j <= k < n ==> is_ws(s@[k]),
        decreases j,
    {
        let c = s.get_char(j - 1);
        if !(c == ' ' || c == '\t' || c == '\n' || c == '\r') {
            proof {
                lemma_trail_ws_at(s@, j as int);
            }
            return n - j;
        }
        j -= 1;
    }
    proof {
        lemma_trail_ws_at(s@, 0);
    }
    n
}

/// Serialized form of a Call frame.
pub open spec fn call_frame(id: Seq<char>, action: Seq<char>, payload: Seq<char>) -> Seq<char> {
    "[2,\""@ + id + "\",\""@ + action + "\","@ + payload + "]"@
}

/// Serialized form of a CallResult frame.
pub open spec fn call_result_frame(id: Seq<char>, payload: Seq<char>) -> Seq<char> {
    "[3,\""@ + id + "\","@ + payload + "]"@
}

/// What `decode` returns on every input: the frame read back from the text,
/// or nothing where the text fits no frame shape.
pub open spec fn spec_decode(s: Seq<char>) -> Option<FrameS> {
    let b = skip_ws(s, 0);
    let z = s.len() - trail_ws(s) - 1;
    if b >= s.len() || s[b] != '[' || z <= b || s[z] != ']' {
        None
    } else {
        let t = skip_ws(s, b + 1);
        if t >= z {
            None
        } else {
            let c1 = skip_ws(s, t + 1);
            if c1 >= z || s[c1] != ',' {
                None
            } else {
                let q0 = skip_ws(s, c1 + 1);
                if q0 >= z || s[q0] != '"' {
                    None
                } else {
                    let q1 = find_quote(s, q0 + 1);
                    if q1 >= z {
                        None
                    } else {
                        let id = s.subrange(q0 + 1, q1);
                        if s[t] == '2' {
                            spec_decode_call(s, z, q1, id)
                        } else if s[t] == '3' {
                            let c2 = skip_ws(s, q1 + 1);
                            if c2 >= z || s[c2] != ',' {
                                None
                            } else {
                                Some(FrameS::CallResult { id, payload: s.subrange(c2 + 1, z) })
                            }
                        } else if s[t] == '4' {
                            spec_decode_call_error(s, z, q1, id)
                        } else {
                            None
                        }
                    }
                }
            }
        }
    }
}

/// The Call elements after the id: the action string and the payload tail.
pub open spec fn spec_decode_call(s: Seq<char>, z: int, q1: int, id: Seq<char>) -> Option<
    FrameS,
> {
    let c2 = skip_ws(s, q1 + 1);
    if c2 >= z || s[c2] != ',' {
        None
    } else {
        let a0 = skip_ws(s, c2 + 1);
        if a0 >= z || s[a0] != '"' {
            None
        } else {
            let q2 = find_quote(s, a0 + 1);
            if q2 >= z {
                None
            } else {
                let c3 = skip_ws(s, q2 + 1);
                if c3 >= z || s[c3] != ',' {
                    None
                } else {
                    Some(FrameS::Call {
                        id,
                        action: s.subrange(a0 + 1, q2),
                        payload: s.subrange(c3 + 1, z),
                    })
                }
            }
        }
    }
}

/// The CallError elements after the id: the code and description strings
/// and the details tail.
pub open spec fn spec_decode_call_error(s: Seq<char>, z: int, q1: int, id: Seq<char>) -> Option<
    FrameS,
> {
    let c2 = skip_ws(s, q1 + 1);
    if c2 >= z || s[c2] != ',' {
        None
    } else {
        let b0 = skip_ws(s, c2 + 1);
        if b0 >= z || s[b0] != '"' {
            None
        } else {
            let q2 = find_quote(s, b0 + 1);
            if q2 >= z {
                None
            } else {
                let c3 = skip_ws(s, q2 + 1);
                if c3 >= z || s[c3] != ',' {
                    None
                } else {
                    let d0 = skip_ws(s, c3 + 1);
                    if d0 >= z || s[d0] != '"' {
                        None
                    } else {
                        let q3 = find_quote(s, d0 + 1);
                        if q3 >= z {
                            None
                        } else {
                            let c4 = skip_ws(s, q3 + 1);
                            if c4 >= z || s[c4] != ',' {
                                None
                            } else {
                                Some(FrameS::CallError {
                                    id,
                                    code: s.subrange(b0 + 1, q2),
                                    description: s.subrange(d0 + 1, q3),
                                    details: s.subrange(c4 + 1, z),
                                })
                            }
                        }
                    }
                }
            }
        }
    }
}

/// Serializes a Call frame.
pub fn encode_call(id: &str, action: &str, payload: &str) -> (r: String)
    ensures
        r@ == call_frame(id@, action@, payload@),
{
    let mut s = String::from_str("[2,\"");
    s.append(id);
    s.append("\",\"");
    s.append(action);
    s.append("\",");
    s.append(payload);
    s.append("]");
    proof {
        assert(s@ =~= call_frame(id@, action@, payload@));
    }
    s
}

/// Serializes a CallResult frame.
pub fn encode_call_result(id: &str, payload: &str) -> (r: String)
    ensures
        r@ == call_result_frame(id@, payload@),
{
    let mut s = String::from_str("[3,\"");
    s.append(id);
    s.append("\",");
    s.append(payload);
    s.append("]");
    proof {
        assert(s@ =~= call_result_frame(id@, payload@));
    }
    s
}

/// Reads a frame back from its serialized text.
pub fn decode(s: &str) -> (r: Option<Frame>)
    ensures
        match r {
            Some(f) => spec_decode(s@) == Some(f@),
            None => spec_decode(s@) is None,
        },
{
    let n = s.unicode_len();
    let b = skip_ws_str(s, 0);
    if b >= n || s.get_char(b) != '[' {
        return None;
    }
    let tw = trail_ws_str(s);
    proof {
        lemma_trail_ws_bound(s@, b as int);
    }
    let z = n - tw - 1;
    if z <= b || s.get_char(z) != ']' {
        return None;
    }
    let t = skip_ws_str(s, b + 1);
    if t >= z {
        return None;
    }
    let ty = s.get_char(t);
    let c1 = skip_ws_str(s, t + 1);
    if c1 >= z || s.get_char(c1) != ',' {
        return None;
    }
    let q0 = skip_ws_str(s, c1 + 1);
    if q0 >= z || s.get_char(q0) != '"' {
        return None;
    }
    let q1 = find_quote_str(s, q0 + 1);
    if q1 >= z {
        return None;
    }
    let id = s.substring_char(q0 + 1, q1).to_owned();
    if ty == '2' {
        let c2 = skip_ws_str(s, q1 + 1);
        if c2 >= z || s.get_char(c2) != ',' {
            return None;
        }
        let a0 = skip_ws_str(s, c2 + 1);
        if a0 >= z || s.get_char(a0) != '"' {
            return None;
        }
        let q2 = find_quote_str(s, a0 + 1);
        if q2 >= z {
            return None;
        }
        let c3 = skip_ws_str(s, q2 + 1);
        if c3 >= z || s.get_char(c3) != ',' {
            return None;
        }
        let action = s.substring_char(a0 + 1, q2).to_owned();
        let payload = s.substring_char(c3 + 1, z).to_owned();
        Some(Frame::Call { id, action, payload })
    } else if ty == '3' {
        let c2 = skip_ws_str(s, q1 + 1);
        if c2 >= z || s.get_char(c2) != ',' {
            return None;
        }
        let payload = s.substring_char(c2 + 1, z).to_owned();
        Some(Frame::CallResult { id, payload })
    } else if ty == '4' {
        let c2 = skip_ws_str(s, q1 + 1);
        if c2 >= z || s.get_char(c2) != ',' {
            return None;
        }
        let b0 = skip_ws_str(s, c2 + 1);
        if b0 >= z || s.get_char(b0) != '"' {
            return None;
        }
        let q2 = find_quote_str(s, b0 + 1);
        if q2 >= z {
            return None;
        }
        let c3 = skip_ws_str(s, q2 + 1);
        if c3 >= z || s.get_char(c3) != ',' {
            return None;
        }
        let d0 = skip_ws_str(s, c3 + 1);
        if d0 >= z || s.get_char(d0) != '"' {
            return None;
        }
        let q3 = find_quote_str(s, d0 + 1);
        if q3 >= z {
            return None;
        }
        let c4 = skip_ws_str(s, q3 + 1);
        if c4 >= z || s.get_char(c4) != ',' {
            return None;
        }
        let code = s.substring_char(b0 + 1, q2).to_owned();
        let description = s.substring_char(d0 + 1, q3).to_owned();
        let details = s.substring_char(c4 + 1, z).to_owned();
        Some(Frame::CallError { id, code, description, details })
    } else {
        None
    }
}

/// Law: decoding an encoded Call frame gives back the id, the action and the
/// payload unchanged, for every id and action free of quote characters.
pub proof fn lemma_call_round_trip(id: Seq<char>, action: Seq<char>, payload: Seq<char>)
    requires
        no_quote(id),
        no_quote(action),
    ensures
        spec_decode(call_frame(id, action, payload)) == Some(
            FrameS::Call { id, action, payload },
        ),
{
    reveal_strlit("[2,\"");
    reveal_strlit("\",\"");
    reveal_strlit("\",");
    reveal_strlit("]");
    let s = call_frame(id, action, payload);
    let n = s.len() as int;
    let q1 = 4 + id.len() as int;
    let q2 = q1 + 3 + action.len() as int;
    assert(n == q2 + 2 + payload.len() + 1);
    assert(s[0] == '[');
    assert(s[1] == '2');
    assert(s[2] == ',');
    assert(s[3] == '"');
    assert(s[n - 1] == ']');
    assert(s[q1] == '"');
    assert(s[q1 + 1] == ',');
    assert(s[q1 + 2] == '"');
    assert(s[q2] == '"');
    assert(s[q2 + 1] == ',');
    assert(skip_ws(s, 0) == 0);
    assert(trail_ws(s) == 0);
    assert(skip_ws(s, 1) == 1);
    assert(skip_ws(s, 2) == 2);
    assert(skip_ws(s, 3) == 3);
    assert forall|j: int| 4 <= j < q1 implies s[j] != '"' by {
        assert(s[j] == id[j - 4]);
    }
    lemma_find_quote_at(s, 4, q1);
    assert(skip_ws(s, q1 + 1) == q1 + 1);
    assert(skip_ws(s, q1 + 2) == q1 + 2);
    assert forall|j: int| q1 + 3 <= j < q2 implies s[j] != '"' by {
        assert(s[j] == action[j - (q1 + 3)]);
    }
    lemma_find_quote_at(s, q1 + 3, q2);
    assert(skip_ws(s, q2 + 1) == q2 + 1);
    assert(s.subrange(4, q1) =~= id);
    assert(s.subrange(q1 + 3, q2) =~= action);
    assert(s.subrange(q2 + 2, n - 1) =~= payload);
}

} // verus!
