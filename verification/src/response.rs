//! Reading a non-streaming chat-completion response: the assistant's
//! content, requested tool calls, and reasoning text.

use vstd::prelude::*;
use crate::json::{json_lookup, views_of, JsonValue, JsonV};

verus! {

/// The first element of the response's `choices` array, or the error
/// text for a malformed response.
pub open spec fn spec_first_choice(v: JsonV) -> Result<JsonV, Seq<char>> {
    match json_lookup(v, "choices"@) {
        Some(c) => match c {
            JsonV::Arr(a) => if a.len() == 0 {
                Err("Empty choices array"@)
            } else {
                Ok(a[0])
            },
            _ => Err("No choices in response"@),
        },
        _ => Err("No choices in response"@),
    }
}

/// Finds the first element of the `choices` array.
fn first_choice<'a>(response: &'a JsonValue) -> (r: Result<&'a JsonValue, String>)
    ensures
        match r {
            Ok(c) => spec_first_choice(response@) == Ok::<JsonV, Seq<char>>((*c)@),
            Err(e) => spec_first_choice(response@) == Err::<JsonV, Seq<char>>(e@),
        },
{
    let choices = match response.get("choices") {
        Some(c) => c,
        None => {
            return Err("No choices in response".to_owned());
        },
    };
    match choices {
        JsonValue::Arr(a) => {
            if a.len() == 0 {
                proof {
                    crate::json::lemma_views_of_len(a@);
                }
                Err("Empty choices array".to_owned())
            } else {
                proof {
                    crate::json::lemma_views_of_index(a@, 0);
                }
                Ok(&a[0])
            }
        },
        _ => Err("No choices in response".to_owned()),
    }
}

/// The assistant's content of a response: the string `content` member of
/// the first choice's `message`, when there is one.
pub open spec fn spec_extract_content(v: JsonV) -> Result<Option<Seq<char>>, Seq<char>> {
    match spec_first_choice(v) {
        Err(e) => Err(e),
        Ok(first) => match json_lookup(first, "message"@) {
            Some(msg) => Ok(
                match json_lookup(msg, "content"@) {
                    Some(JsonV::Str(s)) => Some(s),
                    _ => None,
                },
            ),
            None => Err("No message in response"@),
        },
    }
}

/// Extracts the assistant's content from a non-streaming response.
pub fn extract_content(response: &JsonValue) -> (r: Result<Option<String>, String>)
    ensures
        match spec_extract_content(response@) {
            Ok(c) => r is Ok && (match c {
                Some(s) => r->Ok_0 is Some && r->Ok_0->Some_0@ == s,
                None => r->Ok_0 is None,
            }),
            Err(e) => r is Err && r->Err_0@ == e,
        },
{
    let first = match first_choice(response) {
        Ok(c) => c,
        Err(e) => {
            return Err(e);
        },
    };
    let message = match first.get("message") {
        Some(m) => m,
        None => {
            return Err("No message in response".to_owned());
        },
    };
    match message.get("content") {
        Some(c) => match c {
            JsonValue::Str(s) => Ok(Some(s.clone())),
            _ => Ok(None),
        },
        None => Ok(None),
    }
}

/// The tool calls of a response: the non-empty `tool_calls` array of the
/// first choice's `message`, when there is one.
pub open spec fn spec_parse_tool_calls(v: JsonV) -> Result<Option<Seq<JsonV>>, Seq<char>> {
    match spec_first_choice(v) {
        Err(e) => Err(e),
        Ok(first) => match json_lookup(first, "message"@) {
            Some(msg) => Ok(
                match json_lookup(msg, "tool_calls"@) {
                    Some(JsonV::Arr(a)) => if a.len() > 0 {
                        Some(a)
                    } else {
                        None
                    },
                    _ => None,
                },
            ),
            None => Err("No message in response"@),
        },
    }
}

/// Extracts the requested tool calls from a non-streaming response.
pub fn parse_tool_calls(response: &JsonValue) -> (r: Result<Option<Vec<JsonValue>>, String>)
    ensures
        match spec_parse_tool_calls(response@) {
            Ok(c) => r is Ok && (match c {
                Some(a) => r->Ok_0 is Some && views_of(r->Ok_0->Some_0@) == a,
                None => r->Ok_0 is None,
            }),
            Err(e) => r is Err && r->Err_0@ == e,
        },
{
    let first = match first_choice(response) {
        Ok(c) => c,
        Err(e) => {
            return Err(e);
        },
    };
    let message = match first.get("message") {
        Some(m) => m,
        None => {
            return Err("No message in response".to_owned());
        },
    };
    match message.get("tool_calls") {
        Some(tc) => match tc {
            JsonValue::Arr(a) => {
                proof {
                    crate::json::lemma_views_of_len(a@);
                }
                if a.len() > 0 {
                    let n = a.len();
                    let mut out: Vec<JsonValue> = Vec::new();
                    let mut i: usize = 0;
                    while i < n
                        invariant
                            0 <= i <= n,
                            n == a@.len(),
                            out@.len() == i,
                            forall|k: int|
                                0 <= k < i ==> crate::json::json_view(#[trigger] out@[k])
                                    == crate::json::json_view(a@[k]),
                        decreases n - i,
                    {
                        out.push(a[i].clone());
                        i += 1;
                    }
                    proof {
                        crate::json::lemma_views_of_pointwise(out@, a@);
                    }
                    Ok(Some(out))
                } else {
                    Ok(None)
                }
            },
            _ => Ok(None),
        },
        None => Ok(None),
    }
}

/// The reasoning text of a response: the string `reasoning_content`
/// member of the first choice's `message`, when there is one.
pub open spec fn spec_extract_reasoning(v: JsonV) -> Result<Option<Seq<char>>, Seq<char>> {
    match spec_first_choice(v) {
        Err(e) => Err(e),
        Ok(first) => Ok(
            match json_lookup(first, "message"@) {
                Some(msg) => match json_lookup(msg, "reasoning_content"@) {
                    Some(JsonV::Str(s)) => Some(s),
                    _ => None,
                },
                None => None,
            },
        ),
    }
}

/// Extracts the reasoning text from a non-streaming response.
pub fn extract_reasoning(response: &JsonValue) -> (r: Result<Option<String>, String>)
    ensures
        match spec_extract_reasoning(response@) {
            Ok(c) => r is Ok && (match c {
                Some(s) => r->Ok_0 is Some && r->Ok_0->Some_0@ == s,
                None => r->Ok_0 is None,
            }),
            Err(e) => r is Err && r->Err_0@ == e,
        },
{
    let first = match first_choice(response) {
        Ok(c) => c,
        Err(e) => {
            return Err(e);
        },
    };
    match first.get("message") {
        Some(m) => match m.get("reasoning_content") {
            Some(c) => match c {
                JsonValue::Str(s) => Ok(Some(s.clone())),
                _ => Ok(None),
            },
            None => Ok(None),
        },
        None => Ok(None),
    }
}

} // verus!
