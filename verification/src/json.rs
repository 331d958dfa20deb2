//! A JSON document as the decoders read it: the shape of a parsed websocket
//! message, with object members kept in document order.

use vstd::prelude::*;
use crate::text::{parse_u64, parse_u64_spec, str_eq};

verus! {

/// A JSON number as the parser classified it: a non-negative integer, a
/// negative integer, or any other number kept as the text it prints as.
pub enum JsonNumber {
    PosInt(u64),
    NegInt(i64),
    Float(String),
}

/// One `"key": value` member of a JSON object.
pub struct Member {
    pub key: String,
    pub value: Json,
}

/// A JSON value.
pub enum Json {
    Null,
    Bool(bool),
    Number(JsonNumber),
    Str(String),
    Array(Vec<Json>),
    Object(Vec<Member>),
}

/// The value of the first member of `ms` whose key is `k`.
pub open spec fn member_lookup(ms: Seq<Member>, k: Seq<char>) -> Option<Json>
    decreases ms.len(),
{
    if ms.len() == 0 {
        None
    } else if ms[0].key@ == k {
        Some(ms[0].value)
    } else {
        member_lookup(ms.drop_first(), k)
    }
}

/// Borrowed result seen as the value it points to.
pub open spec fn deref_opt(o: Option<&Json>) -> Option<Json> {
    match o {
        Some(v) => Some(*v),
        None => None,
    }
}

/// The array index a JSON pointer token names: decimal digits without a sign
/// and without a leading zero (a lone `0` is fine).
pub open spec fn index_token(tok: Seq<char>) -> Option<nat> {
    if tok.len() > 0 && tok[0] == '+' {
        None
    } else if tok.len() > 1 && tok[0] == '0' {
        None
    } else {
        match parse_u64_spec(tok) {
            Some(n) => if n <= usize::MAX { Some(n as nat) } else { None },
            None => None,
        }
    }
}

impl Json {
    /// Member `k` of an object; `None` for any other value.
    pub open spec fn get_spec(self, k: Seq<char>) -> Option<Json> {
        match self {
            Json::Object(ms) => member_lookup(ms@, k),
            _ => None,
        }
    }

    /// One JSON-pointer step: an object member, or an array element.
    pub open spec fn step_spec(self, tok: Seq<char>) -> Option<Json> {
        match self {
            Json::Object(ms) => member_lookup(ms@, tok),
            Json::Array(a) => match index_token(tok) {
                Some(i) => if i < a@.len() { Some(a@[i as int]) } else { None },
                None => None,
            },
            _ => None,
        }
    }

    /// The value a JSON pointer made of `toks` leads to.
    pub open spec fn pointer_spec(self, toks: Seq<Seq<char>>) -> Option<Json>
        decreases toks.len(),
    {
        if toks.len() == 0 {
            Some(self)
        } else {
            match self.pointer_spec(toks.drop_last()) {
                Some(w) => w.step_spec(toks.last()),
                None => None,
            }
        }
    }

    /// The text of a JSON string.
    pub open spec fn str_spec(self) -> Option<Seq<char>> {
        match self {
            Json::Str(s) => Some(s@),
            _ => None,
        }
    }

    /// The elements of a JSON array.
    pub open spec fn array_spec(self) -> Option<Seq<Json>> {
        match self {
            Json::Array(a) => Some(a@),
            _ => None,
        }
    }

    /// A number that is a non-negative integer.
    pub open spec fn u64_spec(self) -> Option<u64> {
        match self {
            Json::Number(JsonNumber::PosInt(n)) => Some(n),
            _ => None,
        }
    }

    /// A number that is an integer in the signed 64-bit range.
    pub open spec fn i64_spec(self) -> Option<i64> {
        match self {
            Json::Number(JsonNumber::PosInt(n)) => if n <= i64::MAX as u64 { Some(n as i64) } else { None },
            Json::Number(JsonNumber::NegInt(n)) => Some(n),
            _ => None,
        }
    }

    /// Member `key` of an object.
    pub fn get(&self, key: &str) -> (r: Option<&Json>)
        ensures
            deref_opt(r) == self.get_spec(key@),
    {
        match self {
            Json::Object(ms) => {
                let mut i: usize = 0;
                assert(ms@.skip(0) =~= ms@);
                while i < ms.len()
                    invariant
                        i <= ms@.len(),
                        self.get_spec(key@) == member_lookup(ms@, key@),
                        member_lookup(ms@, key@) == member_lookup(ms@.skip(i as int), key@),
                    decreases ms@.len() - i,
                {
                    assert(ms@.skip(i as int).drop_first() =~= ms@.skip(i + 1));
                    assert(ms@.skip(i as int)[0] == ms@[i as int]);
                    if str_eq(ms[i].key.as_str(), key) {
                        assert(ms@[i as int].key@ == key@);
                        assert(member_lookup(ms@.skip(i as int), key@) == Some(ms@[i as int].value));
                        return Some(&ms[i].value);
                    }
                    i += 1;
                }
                None
            },
            _ => None,
        }
    }

    /// One JSON-pointer step.
    pub fn step(&self, tok: &str) -> (r: Option<&Json>)
        ensures
            deref_opt(r) == self.step_spec(tok@),
    {
        match self {
            Json::Object(_) => self.get(tok),
            Json::Array(a) => {
                let idx = array_index(tok);
                match idx {
                    Some(i) => if i < a.len() { Some(&a[i]) } else { None },
                    None => None,
                }
            },
            _ => None,
        }
    }

    /// Follows the JSON pointer made of `toks` (`Value::pointer`).
    pub fn pointer(&self, toks: &[&str]) -> (r: Option<&Json>)
        ensures
            deref_opt(r) == self.pointer_spec(toks@.map_values(|t: &str| t@)),
    {
        let ghost ts = toks@.map_values(|t: &str| t@);
        let mut cur: &Json = self;
        let mut i: usize = 0;
        assert(ts.take(0) =~= Seq::<Seq<char>>::empty());
        while i < toks.len()
            invariant
                i <= toks@.len(),
                ts == toks@.map_values(|t: &str| t@),
                self.pointer_spec(ts.take(i as int)) == Some(*cur),
            decreases toks@.len() - i,
        {
            assert(ts.take(i + 1).drop_last() =~= ts.take(i as int));
            match cur.step(toks[i]) {
                Some(next) => {
                    cur = next;
                },
                None => {
                    proof {
                        self.lemma_pointer_none(ts, i as int + 1);
                    }
                    return None;
                },
            }
            i += 1;
        }
        assert(ts.take(i as int) =~= ts);
        Some(cur)
    }

    proof fn lemma_pointer_none(self, ts: Seq<Seq<char>>, k: int)
        requires
            0 < k <= ts.len(),
            self.pointer_spec(ts.take(k)) is None,
        ensures
            self.pointer_spec(ts) is None,
        decreases ts.len() - k,
    {
        if k == ts.len() {
            assert(ts.take(k) =~= ts);
        } else {
            assert(ts.take(k + 1).drop_last() =~= ts.take(k));
            self.lemma_pointer_none(ts, k + 1);
        }
    }

    /// The text of a JSON string (`Value::as_str`).
    pub fn as_str(&self) -> (r: Option<&str>)
        ensures
            match r {
                Some(s) => self.str_spec() == Some(s@),
                None => self.str_spec() is None,
            },
    {
        match self {
            Json::Str(s) => Some(s.as_str()),
            _ => None,
        }
    }

    /// The elements of a JSON array (`Value::as_array`).
    pub fn as_array(&self) -> (r: Option<&Vec<Json>>)
        ensures
            match r {
                Some(a) => self.array_spec() == Some(a@),
                None => self.array_spec() is None,
            },
    {
        match self {
            Json::Array(a) => Some(a),
            _ => None,
        }
    }

    /// A non-negative integer (`Value::as_u64`).
    pub fn as_u64(&self) -> (r: Option<u64>)
        ensures
            r == self.u64_spec(),
    {
        match self {
            Json::Number(JsonNumber::PosInt(n)) => Some(*n),
            _ => None,
        }
    }

    /// A signed 64-bit integer (`Value::as_i64`).
    pub fn as_i64(&self) -> (r: Option<i64>)
        ensures
            r == self.i64_spec(),
    {
        match self {
            Json::Number(JsonNumber::PosInt(n)) => if *n <= i64::MAX as u64 { Some(*n as i64) } else { None },
            Json::Number(JsonNumber::NegInt(n)) => Some(*n),
            _ => None,
        }
    }
}

/// The array index named by a pointer token.
pub fn array_index(tok: &str) -> (r: Option<usize>)
    ensures
        match r {
            Some(i) => index_token(tok@) == Some(i as nat),
            None => index_token(tok@) is None,
        },
{
    let v = crate::text::chars_of(tok);
    if v.len() > 0 && v[0] == '+' {
        return None;
    }
    if v.len() > 1 && v[0] == '0' {
        return None;
    }
    match parse_u64(tok) {
        Some(n) => if n <= usize::MAX as u64 { Some(n as usize) } else { None },
        None => None,
    }
}

} // verus!
