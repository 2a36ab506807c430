//! The heuristic deciding whether a query warrants a web search.

use vstd::prelude::*;
use crate::strutil::{contains_seq, starts_with_seq, str_contains, str_starts_with};

verus! {

/// The case-folded form of `s`, as `str::to_lowercase` yields it: a
/// function of the characters alone.
pub uninterp spec fn lower_of(s: Seq<char>) -> Seq<char>;

/// Relies on `str::to_lowercase`: the result depends on the characters
/// alone.
#[verifier::external_body]
pub(crate) fn to_lowercase(s: &str) -> (r: String)
    ensures
        r@ == lower_of(s@),
{
    s.to_lowercase()
}

/// Whether `l` holds a keyword that asks for fresh information.
pub open spec fn has_web_keyword(l: Seq<char>) -> bool {
    ||| contains_seq(l, "latest"@)
    ||| contains_seq(l, "recent"@)
    ||| contains_seq(l, "current"@)
    ||| contains_seq(l, "today"@)
    ||| contains_seq(l, "yesterday"@)
    ||| contains_seq(l, "news"@)
    ||| contains_seq(l, "update"@)
    ||| contains_seq(l, "price"@)
    ||| contains_seq(l, "stock"@)
    ||| contains_seq(l, "weather"@)
    ||| contains_seq(l, "score"@)
    ||| contains_seq(l, "result"@)
    ||| contains_seq(l, "released"@)
    ||| contains_seq(l, "announced"@)
    ||| contains_seq(l, "trending"@)
    ||| contains_seq(l, "happening"@)
    ||| contains_seq(l, "now"@)
    ||| contains_seq(l, "breaking"@)
    ||| contains_seq(l, "2024"@)
    ||| contains_seq(l, "2025"@)
    ||| contains_seq(l, "this week"@)
    ||| contains_seq(l, "this month"@)
    ||| contains_seq(l, "real-time"@)
    ||| contains_seq(l, "live"@)
    ||| contains_seq(l, "status"@)
    ||| contains_seq(l, "outage"@)
    ||| contains_seq(l, "down"@)
}

/// Whether `l` opens with an informational phrase.
pub open spec fn has_info_prefix(l: Seq<char>) -> bool {
    ||| starts_with_seq(l, "what is"@)
    ||| starts_with_seq(l, "who is"@)
    ||| starts_with_seq(l, "where is"@)
    ||| starts_with_seq(l, "when is"@)
    ||| starts_with_seq(l, "how to"@)
    ||| starts_with_seq(l, "tell me about"@)
    ||| starts_with_seq(l, "explain"@)
    ||| starts_with_seq(l, "define"@)
    ||| starts_with_seq(l, "information about"@)
}

/// Whether `l` holds a keyword of queries that need no search.
pub open spec fn has_no_search_keyword(l: Seq<char>) -> bool {
    ||| contains_seq(l, "hi"@)
    ||| contains_seq(l, "hello"@)
    ||| contains_seq(l, "hey"@)
    ||| contains_seq(l, "thanks"@)
    ||| contains_seq(l, "thank you"@)
    ||| contains_seq(l, "bye"@)
    ||| contains_seq(l, "goodbye"@)
    ||| contains_seq(l, "please"@)
    ||| contains_seq(l, "help me write"@)
    ||| contains_seq(l, "code"@)
    ||| contains_seq(l, "implement"@)
    ||| contains_seq(l, "fix"@)
    ||| contains_seq(l, "debug"@)
    ||| contains_seq(l, "create"@)
    ||| contains_seq(l, "make"@)
    ||| contains_seq(l, "build"@)
}

/// Whether `l` names an entity worth looking up.
pub open spec fn has_entity_keyword(l: Seq<char>) -> bool {
    ||| contains_seq(l, "company"@)
    ||| contains_seq(l, "person"@)
    ||| contains_seq(l, "event"@)
    ||| contains_seq(l, "place"@)
    ||| contains_seq(l, "product"@)
}

/// The search decision over the case-folded query: chit-chat without
/// freshness keywords declines; freshness keywords accept; an
/// informational opener accepts when an entity is named; anything else
/// declines.
pub open spec fn spec_should_search(l: Seq<char>) -> bool {
    if has_no_search_keyword(l) && !has_web_keyword(l) {
        false
    } else if has_web_keyword(l) {
        true
    } else if has_info_prefix(l) {
        has_entity_keyword(l)
    } else {
        false
    }
}

/// Decides [`spec_should_search`] over an already case-folded query.
pub fn should_search_lowered(l: &str) -> (r: bool)
    ensures
        r == spec_should_search(l@),
{
    let no_search = str_contains(l, "hi") || str_contains(l, "hello") || str_contains(l, "hey")
        || str_contains(l, "thanks") || str_contains(l, "thank you") || str_contains(l, "bye")
        || str_contains(l, "goodbye") || str_contains(l, "please") || str_contains(
        l,
        "help me write",
    ) || str_contains(l, "code") || str_contains(l, "implement") || str_contains(l, "fix")
        || str_contains(l, "debug") || str_contains(l, "create") || str_contains(l, "make")
        || str_contains(l, "build");
    let web = str_contains(l, "latest") || str_contains(l, "recent") || str_contains(l, "current")
        || str_contains(l, "today") || str_contains(l, "yesterday") || str_contains(l, "news")
        || str_contains(l, "update") || str_contains(l, "price") || str_contains(l, "stock")
        || str_contains(l, "weather") || str_contains(l, "score") || str_contains(l, "result")
        || str_contains(l, "released") || str_contains(l, "announced") || str_contains(
        l,
        "trending",
    ) || str_contains(l, "happening") || str_contains(l, "now") || str_contains(l, "breaking")
        || str_contains(l, "2024") || str_contains(l, "2025") || str_contains(l, "this week")
        || str_contains(l, "this month") || str_contains(l, "real-time") || str_contains(
        l,
        "live",
    ) || str_contains(l, "status") || str_contains(l, "outage") || str_contains(l, "down");
    if no_search && !web {
        return false;
    }
    if web {
        return true;
    }
    let info = str_starts_with(l, "what is") || str_starts_with(l, "who is") || str_starts_with(
        l,
        "where is",
    ) || str_starts_with(l, "when is") || str_starts_with(l, "how to") || str_starts_with(
        l,
        "tell me about",
    ) || str_starts_with(l, "explain") || str_starts_with(l, "define") || str_starts_with(
        l,
        "information about",
    );
    if info {
        return str_contains(l, "company") || str_contains(l, "person") || str_contains(
            l,
            "event",
        ) || str_contains(l, "place") || str_contains(l, "product");
    }
    false
}

/// Decides whether `command` warrants a web search: a forced setting
/// wins; otherwise [`spec_should_search`] is decided over the
/// case-folded command.
pub fn should_use_web_search(command: &str, force_search: bool, no_search: bool) -> (r: bool)
    ensures
        force_search ==> r,
        !force_search && no_search ==> !r,
        !force_search && !no_search ==> r == spec_should_search(lower_of(command@)),
{
    if force_search {
        return true;
    }
    if no_search {
        return false;
    }
    let lowered = to_lowercase(command);
    should_search_lowered(lowered.as_str())
}

} // verus!
