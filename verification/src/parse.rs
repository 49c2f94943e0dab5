//! Parsers for the payload fields the action handlers read.  The payloads
//! are JSON objects; the parsers accept insignificant whitespace, any
//! member order and extra members, and read just the members the handlers
//! need.  The strings these payloads carry hold no quote character, so a
//! quoted key pattern cannot occur inside a value.  Each exec parser
//! returns exactly what its spec-level mirror says, on every input.

use vstd::prelude::*;
use crate::numbers::{is_digit, scan_num, scan_num_str, lemma_scan_num_bounds};
use crate::codec::{find_quote, find_quote_str, skip_ws, skip_ws_str};
use crate::payloads::{VarRef, VarRefS, var_refs_view};

verus! {

/// The literal `lit` stands in `s` at position `at`.
pub open spec fn lit_at(s: Seq<char>, at: int, lit: Seq<char>) -> bool {
    0 <= at && at + lit.len() <= s.len() && s.subrange(at, at + lit.len()) == lit
}

/// Compares the characters of `s` from `at` with `lit`.
pub fn match_lit(s: &str, at: usize, lit: &str) -> (r: bool)
    requires
        at <= s@.len(),
    ensures
        r == lit_at(s@, at as int, lit@),
{
    let n = s.unicode_len();
    let m = lit.unicode_len();
    if n - at < m {
        return false;
    }
    let mut i: usize = 0;
    while i < m
        invariant
            i <= m,
            at + m <= n,
            n == s@.len(),
            m == lit@.len(),
            forall|j: int| 0 <= j < i ==> s@[at + j] == lit@[j],
        decreases m - i,
    {
        if s.get_char(at + i) != lit.get_char(i) {
            proof {
                if lit_at(s@, at as int, lit@) {
                    assert(s@.subrange(at as int, at + lit@.len() as int)[i as int]
                        == lit@[i as int]);
                }
            }
            return false;
        }
        i += 1;
    }
    proof {
        assert(s@.subrange(at as int, at + lit@.len() as int) =~= lit@);
    }
    true
}

/// Number of characters from `from` to the first occurrence of `lit`, or to
/// the end of `s` if it never occurs.
pub open spec fn lit_dist(s: Seq<char>, from: int, lit: Seq<char>) -> nat
    decreases s.len() - from when from <= s.len()
{
    if from < 0 || from >= s.len() {
        0
    } else if lit_at(s, from, lit) {
        0
    } else {
        1 + lit_dist(s, from + 1, lit)
    }
}

/// Index of the first occurrence of `lit` at or after `from`, or `s.len()`
/// if it never occurs.
pub open spec fn find_lit(s: Seq<char>, from: int, lit: Seq<char>) -> int {
    from + lit_dist(s, from, lit)
}

pub proof fn lemma_find_lit(s: Seq<char>, from: int, lit: Seq<char>)
    requires
        0 <= from <= s.len(),
    ensures
        from <= find_lit(s, from, lit) <= s.len(),
        find_lit(s, from, lit) < s.len() ==> lit_at(s, find_lit(s, from, lit), lit),
        forall|j: int| from <= j < find_lit(s, from, lit) ==> !lit_at(s, j, lit),
    decreases s.len() - from,
{
    if from < s.len() && !lit_at(s, from, lit) {
        lemma_find_lit(s, from + 1, lit);
    }
}

pub proof fn lemma_find_lit_at(s: Seq<char>, from: int, lit: Seq<char>, k: int)
    requires
        0 <= from <= k < s.len(),
        forall|j: int| from <= j < k ==> !lit_at(s, j, lit),
        lit_at(s, k, lit),
    ensures
        find_lit(s, from, lit) == k,
    decreases k - from,
{
    if from < k {
        lemma_find_lit_at(s, from + 1, lit, k);
    }
}

/// Index of the first occurrence of `lit` at or after `from`, or the
/// character count of `s` if it never occurs.
pub fn find_lit_str(s: &str, from: usize, lit: &str) -> (r: usize)
    requires
        from <= s@.len(),
    ensures
        r == find_lit(s@, from as int, lit@),
{
    let n = s.unicode_len();
    let mut i = from;
    while i < n
        invariant
            from <= i <= n,
            n == s@.len(),
            forall|j: int| from <= j < i ==> !lit_at(s@, j, lit@),
        decreases n - i,
    {
        if match_lit(s, i, lit) {
            proof {
                lemma_find_lit_at(s@, from as int, lit@, i as int);
            }
            return i;
        }
        i += 1;
    }
    proof {
        lemma_find_lit(s@, from as int, lit@);
    }
    n
}

/// Index where the value of the member with the quoted key `key` starts,
/// skipping whitespace around the colon; -1 where no such member stands in
/// `p`.
pub open spec fn member_value_start(p: Seq<char>, key: Seq<char>) -> int {
    let k = find_lit(p, 0, key);
    if k >= p.len() {
        -1
    } else {
        let c = skip_ws(p, k + key.len());
        if c >= p.len() || p[c] != ':' {
            -1
        } else {
            let v = skip_ws(p, c + 1);
            if v >= p.len() {
                -1
            } else {
                v
            }
        }
    }
}

pub fn member_value_start_str(p: &str, key: &str) -> (r: Option<usize>)
    ensures
        match r {
            Some(v) => member_value_start(p@, key@) == v as int && v < p@.len(),
            None => member_value_start(p@, key@) == -1,
        },
{
    let n = p.unicode_len();
    let k = find_lit_str(p, 0, key);
    if k >= n {
        return None;
    }
    proof {
        lemma_find_lit(p@, 0, key@);
    }
    let kl = key.unicode_len();
    let c = skip_ws_str(p, k + kl);
    if c >= n {
        return None;
    }
    if p.get_char(c) != ':' {
        return None;
    }
    let v = skip_ws_str(p, c + 1);
    if v >= n {
        return None;
    }
    Some(v)
}

/// The number member `key`: its value and the span of its digits, with a
/// delimiter required after them; nothing where the member is absent or its
/// value is not a plain number that fits 64 bits.
pub open spec fn num_member(p: Seq<char>, key: Seq<char>) -> Option<(nat, int, int)> {
    let v = member_value_start(p, key);
    if v < 0 || !is_digit(p[v]) {
        None
    } else {
        match scan_num(p, v, 0) {
            None => None,
            Some((n, e)) => {
                let t = skip_ws(p, e);
                if t < p.len() && (p[t] == ',' || p[t] == '}') {
                    Some((n, v, e))
                } else {
                    None
                }
            },
        }
    }
}

pub fn num_member_str(p: &str, key: &str) -> (r: Option<(u64, usize, usize)>)
    ensures
        match r {
            Some((n, v, e)) => num_member(p@, key@) == Some((n as nat, v as int, e as int)),
            None => num_member(p@, key@) is None,
        },
{
    let nn = p.unicode_len();
    match member_value_start_str(p, key) {
        None => None,
        Some(v) => {
            let c = p.get_char(v);
            if c < '0' || c > '9' {
                return None;
            }
            match scan_num_str(p, v) {
                None => None,
                Some((val, e)) => {
                    proof {
                        lemma_scan_num_bounds(p@, v as int, 0);
                    }
                    let t = skip_ws_str(p, e);
                    if t < nn {
                        let tc = p.get_char(t);
                        if tc == ',' || tc == '}' {
                            Some((val, v, e))
                        } else {
                            None
                        }
                    } else {
                        None
                    }
                },
            }
        },
    }
}

/// The string member `key`: its value, which carries no quote character;
/// nothing where the member is absent or its value is not a string.
pub open spec fn str_member(p: Seq<char>, key: Seq<char>) -> Option<Seq<char>> {
    let v = member_value_start(p, key);
    if v < 0 || p[v] != '"' {
        None
    } else {
        let q = find_quote(p, v + 1);
        if q >= p.len() {
            None
        } else {
            Some(p.subrange(v + 1, q))
        }
    }
}

pub fn str_member_str(p: &str, key: &str) -> (r: Option<String>)
    ensures
        match r {
            Some(t) => str_member(p@, key@) == Some(t@),
            None => str_member(p@, key@) is None,
        },
{
    let n = p.unicode_len();
    match member_value_start_str(p, key) {
        None => None,
        Some(v) => {
            if p.get_char(v) != '"' {
                return None;
            }
            let q = find_quote_str(p, v + 1);
            if q >= n {
                return None;
            }
            Some(p.substring_char(v + 1, q).to_owned())
        },
    }
}

/// Fields of a RequestStartTransaction payload: the `remoteStartId` and
/// `evseId` number members.
pub open spec fn spec_parse_start(p: Seq<char>) -> Option<(nat, nat)> {
    match num_member(p, "\"remoteStartId\""@) {
        None => None,
        Some((r, rv, re)) => match num_member(p, "\"evseId\""@) {
            None => None,
            Some((e, ev, ee)) => Some((r, e)),
        },
    }
}

pub fn parse_start_payload(p: &str) -> (r: Option<(u64, u64)>)
    ensures
        match r {
            Some((a, b)) => spec_parse_start(p@) == Some((a as nat, b as nat)),
            None => spec_parse_start(p@) is None,
        },
{
    match num_member_str(p, "\"remoteStartId\"") {
        None => None,
        Some((rsid, rv, re)) => match num_member_str(p, "\"evseId\"") {
            None => None,
            Some((evse, ev, ee)) => Some((rsid, evse)),
        },
    }
}

/// Field of a RequestStopTransaction payload: the `transactionId` member,
/// a string, or a number taken as its digit text.
pub open spec fn spec_parse_stop(p: Seq<char>) -> Option<Seq<char>> {
    match str_member(p, "\"transactionId\""@) {
        Some(t) => Some(t),
        None => match num_member(p, "\"transactionId\""@) {
            Some((n, v, e)) => Some(p.subrange(v, e)),
            None => None,
        },
    }
}

pub fn parse_stop_payload(p: &str) -> (r: Option<String>)
    ensures
        match r {
            Some(t) => spec_parse_stop(p@) == Some(t@),
            None => spec_parse_stop(p@) is None,
        },
{
    match str_member_str(p, "\"transactionId\"") {
        Some(t) => Some(t),
        None => match num_member_str(p, "\"transactionId\"") {
            Some((n, v, e)) => {
                proof {
                    if member_value_start(p@, "\"transactionId\""@) >= 0 {
                        lemma_scan_num_bounds(p@, v as int, 0);
                    }
                }
                Some(p.substring_char(v, e).to_owned())
            },
            None => None,
        },
    }
}

/// The `status` member of a BootNotification response payload.
pub open spec fn spec_parse_boot_status(p: Seq<char>) -> Option<Seq<char>> {
    str_member(p, "\"status\""@)
}

pub fn parse_boot_status(p: &str) -> (r: Option<String>)
    ensures
        match r {
            Some(t) => spec_parse_boot_status(p@) == Some(t@),
            None => spec_parse_boot_status(p@) is None,
        },
{
    str_member_str(p, "\"status\"")
}

/// The `interval` member of a BootNotification response payload, in
/// seconds.
pub open spec fn spec_parse_boot_interval(p: Seq<char>) -> Option<nat> {
    match num_member(p, "\"interval\""@) {
        Some((n, v, e)) => Some(n),
        None => None,
    }
}

pub fn parse_boot_interval(p: &str) -> (r: Option<u64>)
    ensures
        match r {
            Some(n) => spec_parse_boot_interval(p@) == Some(n as nat),
            None => spec_parse_boot_interval(p@) is None,
        },
{
    match num_member_str(p, "\"interval\"") {
        Some((n, v, e)) => Some(n),
        None => None,
    }
}

/// Characters from `from` to just past the brace that closes the object
/// `depth` braces deep there, or 0 where the braces do not balance.
pub open spec fn obj_end_dist(p: Seq<char>, from: int, depth: nat) -> nat
    decreases p.len() - from when from <= p.len()
{
    if from < 0 || from >= p.len() {
        0
    } else if p[from] == '{' {
        let d = obj_end_dist(p, from + 1, depth + 1);
        if d == 0 {
            0
        } else {
            1 + d
        }
    } else if p[from] == '}' {
        if depth == 1 {
            1
        } else if depth == 0 {
            0
        } else {
            let d = obj_end_dist(p, from + 1, (depth - 1) as nat);
            if d == 0 {
                0
            } else {
                1 + d
            }
        }
    } else {
        let d = obj_end_dist(p, from + 1, depth);
        if d == 0 {
            0
        } else {
            1 + d
        }
    }
}

/// Index just past the brace that closes the object opening at `from`.
pub fn obj_end_str(p: &str, from: usize) -> (r: Option<usize>)
    requires
        from <= p@.len(),
    ensures
        match r {
            Some(e) => {
                &&& obj_end_dist(p@, from as int, 0) == (e - from) as nat
                &&& from < e <= p@.len()
            },
            None => obj_end_dist(p@, from as int, 0) == 0,
        },
{
    let n = p.unicode_len();
    let mut i = from;
    let mut depth: usize = 0;
    while i < n
        invariant
            from <= i <= n,
            n == p@.len(),
            depth <= i - from,
            ({
                let top = obj_end_dist(p@, from as int, 0);
                let cur = obj_end_dist(p@, i as int, depth as nat);
                top == if cur == 0 {
                    0nat
                } else {
                    ((i - from) + cur) as nat
                }
            }),
        decreases n - i,
    {
        let c = p.get_char(i);
        if c == '{' {
            depth += 1;
            i += 1;
        } else if c == '}' {
            if depth == 1 {
                return Some(i + 1);
            } else if depth == 0 {
                return None;
            } else {
                depth -= 1;
                i += 1;
            }
        } else {
            i += 1;
        }
    }
    None
}

/// Items of a variable-data array: from the first item's opening brace, a
/// comma-separated run of `{"component":…,"variable":{"name":…}}` objects
/// up to and including the closing bracket.  The result's second part is
/// the index just past that bracket.
pub open spec fn spec_parse_entries(p: Seq<char>, from: int) -> Option<(Seq<VarRefS>, int)>
    decreases p.len() - from when from <= p.len()
{
    if from < 0 || from >= p.len() || p[from] != '{' {
        None
    } else {
        let d = obj_end_dist(p, from, 0);
        if d == 0 {
            None
        } else {
            let item = p.subrange(from, from + d);
            match str_member(item, "\"component\""@) {
                None => None,
                Some(c) => match str_member(item, "\"name\""@) {
                    None => None,
                    Some(v) => {
                        let entry = VarRefS { component: c, variable: v };
                        let t = skip_ws(p, from + d);
                        if t >= p.len() {
                            None
                        } else if p[t] == ']' {
                            Some((seq![entry], t + 1))
                        } else if p[t] == ',' {
                            let u = skip_ws(p, t + 1);
                            if u > p.len() {
                                None
                            } else {
                                match spec_parse_entries(p, u) {
                                    None => None,
                                    Some((rest, e)) => Some((seq![entry] + rest, e)),
                                }
                            }
                        } else {
                            None
                        }
                    },
                },
            }
        }
    }
}

pub fn parse_entries(p: &str, from: usize) -> (r: Option<(Vec<VarRef>, usize)>)
    requires
        from <= p@.len(),
    ensures
        match r {
            Some((entries, e)) => spec_parse_entries(p@, from as int) == Some(
                (var_refs_view(entries@), e as int),
            ),
            None => spec_parse_entries(p@, from as int) is None,
        },
    decreases p@.len() - from,
{
    let n = p.unicode_len();
    if from >= n {
        return None;
    }
    if p.get_char(from) != '{' {
        return None;
    }
    match obj_end_str(p, from) {
        None => None,
        Some(e0) => {
            let item = p.substring_char(from, e0);
            match str_member_str(item, "\"component\"") {
                None => None,
                Some(component) => match str_member_str(item, "\"name\"") {
                    None => None,
                    Some(variable) => {
                        let entry = VarRef { component, variable };
                        let t = skip_ws_str(p, e0);
                        if t >= n {
                            return None;
                        }
                        let tc = p.get_char(t);
                        if tc == ']' {
                            let mut v: Vec<VarRef> = Vec::new();
                            v.push(entry);
                            proof {
                                assert(var_refs_view(v@) =~= seq![entry@]);
                            }
                            Some((v, t + 1))
                        } else if tc == ',' {
                            let u = skip_ws_str(p, t + 1);
                            match parse_entries(p, u) {
                                None => None,
                                Some((rest, e)) => {
                                    let ghost old_rest = rest@;
                                    let mut rest = rest;
                                    rest.insert(0, entry);
                                    proof {
                                        assert(var_refs_view(rest@) =~= seq![entry@]
                                            + var_refs_view(old_rest));
                                    }
                                    Some((rest, e))
                                },
                            }
                        } else {
                            None
                        }
                    },
                },
            }
        },
    }
}

/// The items of the array member `key`: empty where the array is `[]`, and
/// otherwise the comma-separated item objects.
pub open spec fn spec_parse_var_list(p: Seq<char>, key: Seq<char>) -> Option<Seq<VarRefS>> {
    let v = member_value_start(p, key);
    if v < 0 || p[v] != '[' {
        None
    } else {
        let w = skip_ws(p, v + 1);
        if w >= p.len() {
            None
        } else if p[w] == ']' {
            Some(Seq::<VarRefS>::empty())
        } else {
            match spec_parse_entries(p, w) {
                None => None,
                Some((entries, e)) => Some(entries),
            }
        }
    }
}

fn parse_var_list(p: &str, key: &str) -> (r: Option<Vec<VarRef>>)
    ensures
        match r {
            Some(entries) => spec_parse_var_list(p@, key@) == Some(var_refs_view(entries@)),
            None => spec_parse_var_list(p@, key@) is None,
        },
{
    let n = p.unicode_len();
    match member_value_start_str(p, key) {
        None => None,
        Some(v) => {
            if p.get_char(v) != '[' {
                return None;
            }
            let w = skip_ws_str(p, v + 1);
            if w >= n {
                return None;
            }
            if p.get_char(w) == ']' {
                let empty: Vec<VarRef> = Vec::new();
                proof {
                    assert(var_refs_view(empty@) =~= Seq::<VarRefS>::empty());
                }
                Some(empty)
            } else {
                match parse_entries(p, w) {
                    None => None,
                    Some((entries, e)) => Some(entries),
                }
            }
        },
    }
}

/// Items of a SetVariables payload: the `setVariableData` array member.
pub open spec fn spec_parse_set_variables(p: Seq<char>) -> Option<Seq<VarRefS>> {
    spec_parse_var_list(p, "\"setVariableData\""@)
}

/// Items of a GetVariables payload: the `getVariableData` array member.
pub open spec fn spec_parse_get_variables(p: Seq<char>) -> Option<Seq<VarRefS>> {
    spec_parse_var_list(p, "\"getVariableData\""@)
}

pub fn parse_set_variables_payload(p: &str) -> (r: Option<Vec<VarRef>>)
    ensures
        match r {
            Some(entries) => spec_parse_set_variables(p@) == Some(var_refs_view(entries@)),
            None => spec_parse_set_variables(p@) is None,
        },
{
    parse_var_list(p, "\"setVariableData\"")
}

pub fn parse_get_variables_payload(p: &str) -> (r: Option<Vec<VarRef>>)
    ensures
        match r {
            Some(entries) => spec_parse_get_variables(p@) == Some(var_refs_view(entries@)),
            None => spec_parse_get_variables(p@) is None,
        },
{
    parse_var_list(p, "\"getVariableData\"")
}

} // verus!
