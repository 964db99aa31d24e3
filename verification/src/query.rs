//! The bidirectional binding between one URL query parameter and an
//! in-memory optional-integer key.
use crate::digits::decimal_of;
use crate::digits::decimal_string;
use crate::digits::lemma_parse_decimal_roundtrip;
use crate::digits::parse_decimal;
use crate::digits::parse_i32;
use vstd::prelude::*;

verus! {

/// The ghost image of a `QuerySignal`: the in-memory key and the text of
/// the bound query parameter, if the parameter is present.
pub struct QueryView {
    pub value: Option<i32>,
    pub param: Option<Seq<char>>,
}

/// The key a parameter denotes: present text is parsed as a signed
/// decimal integer, absent text is no key.
pub open spec fn key_of_param(param: Option<Seq<char>>) -> Option<i32> {
    match param {
        Some(p) => parse_i32(p),
        None => None,
    }
}

/// One write at the ghost level: text that parses sets the key and
/// rewrites the parameter to the canonical text of the number; any other
/// text clears both. The step never depends on the state written over.
pub open spec fn write_step(s: QueryView, raw: Seq<char>) -> QueryView {
    match parse_i32(raw) {
        Some(v) => QueryView { value: Some(v), param: Some(decimal_of(v as int)) },
        None => QueryView { value: None, param: None },
    }
}

/// Keeps an optional-integer value and a URL query parameter consistent
/// in both directions: reads parse the parameter, writes re-parse raw
/// input and update both sides at once.
pub struct QuerySignal {
    value: Option<i32>,
    param: Option<String>,
}

impl View for QuerySignal {
    type V = QueryView;

    closed spec fn view(&self) -> QueryView {
        QueryView {
            value: self.value,
            param: match self.param {
                Some(p) => Some(p@),
                None => None,
            },
        }
    }
}

impl QuerySignal {
    /// A well-formed signal: the in-memory key is exactly what the bound
    /// parameter parses to.
    pub open spec fn wf(self) -> bool {
        self@.value == key_of_param(self@.param)
    }

    /// A signal whose query parameter is absent.
    pub fn new() -> (r: QuerySignal)
        ensures
            r.wf(),
            r@.value is None,
            r@.param is None,
    {
        QuerySignal { value: None, param: None }
    }

    /// A signal bound to the query parameter as a reload or a shared
    /// link presents it: the key is whatever the parameter parses to.
    pub fn from_param(param: Option<&str>) -> (r: QuerySignal)
        ensures
            r.wf(),
            r@.param == (match param {
                Some(p) => Some(p@),
                None => None::<Seq<char>>,
            }),
    {
        match param {
            Some(p) => QuerySignal { value: parse_decimal(p), param: Some(String::from_str(p)) },
            None => QuerySignal { value: None, param: None },
        }
    }

    /// The key currently parsed from the query parameter. Text that does
    /// not parse is no error: it reads as no key at all.
    pub fn read(&self) -> (r: Option<i32>)
        requires
            self.wf(),
        ensures
            r == key_of_param(self@.param),
    {
        self.value
    }

    /// Re-parses `raw`: on success stores the number and writes its
    /// canonical text back to the query parameter, on failure clears
    /// both sides to absent.
    pub fn write(&mut self, raw: &str)
        ensures
            final(self)@ == write_step(old(self)@, raw@),
            final(self).wf(),
    {
        match parse_decimal(raw) {
            Some(v) => {
                proof {
                    lemma_parse_decimal_roundtrip(v);
                }
                self.value = Some(v);
                self.param = Some(decimal_string(v));
            },
            None => {
                self.value = None;
                self.param = None;
            },
        }
    }

    /// The parameter text to place in the shareable URL, absent when the
    /// parameter is cleared.
    pub fn param_text(&self) -> (r: &Option<String>)
        ensures
            r is Some <==> self@.param is Some,
            r is Some ==> r->0@ == self@.param->0,
    {
        &self.param
    }
}

/// Writing the same raw text twice in a row leaves the same state as
/// writing it once.
pub proof fn lemma_write_idempotent(s: QueryView, raw: Seq<char>)
    ensures
        write_step(write_step(s, raw), raw) == write_step(s, raw),
{
}

/// A write is visible to every later read: the key read back is exactly
/// what the raw text parsed to.
pub proof fn lemma_write_then_read(s: QueryView, raw: Seq<char>)
    ensures
        key_of_param(write_step(s, raw).param) == parse_i32(raw),
{
    if parse_i32(raw) is Some {
        lemma_parse_decimal_roundtrip(parse_i32(raw)->0);
    }
}

} // verus!
