//! How much of a provider's rate limit is left.
use vstd::prelude::*;

use crate::text::{parse_u64, parsed_u64, same_ignoring_case, lowercase, trimmed};

verus! {

/// The part of a rate limit that is left: `remaining` out of `limit` requests,
/// between none and all.
#[derive(Debug, Clone, Copy)]
pub struct RateLimitHeadroom {
    remaining: u64,
    limit: u64,
}

impl RateLimitHeadroom {
    #[verifier::type_invariant]
    pub closed spec fn is_fraction(self) -> bool {
        self.remaining <= self.limit && self.limit > 0
    }

    /// The requests that are left.
    pub closed spec fn left(self) -> u64 {
        self.remaining
    }

    /// The requests that are allowed.
    pub closed spec fn allowed(self) -> u64 {
        self.limit
    }

    /// The part that is left, at most all of it; nothing is known of a limit of
    /// zero.
    pub fn new(remaining: u64, limit: u64) -> (headroom: Option<RateLimitHeadroom>)
        ensures
            headroom is None <==> limit == 0,
            headroom matches Some(h) ==> h.allowed() == limit && h.left() == (if remaining
                <= limit {
                remaining
            } else {
                limit
            }),
    {
        if limit == 0 {
            None
        } else {
            Some(RateLimitHeadroom { remaining: remaining.min(limit), limit })
        }
    }

    pub fn remaining(&self) -> (remaining: u64)
        ensures
            remaining == self.left(),
            remaining <= self.allowed(),
    {
        proof {
            use_type_invariant(self);
        }
        self.remaining
    }

    pub fn limit(&self) -> (limit: u64)
        ensures
            limit == self.allowed(),
            limit > 0,
    {
        proof {
            use_type_invariant(self);
        }
        self.limit
    }
}

/// The value of the first header with the given name, in whatever case.
pub open spec fn header_value(headers: Seq<(String, String)>, name: Seq<char>) -> Option<
    Seq<char>,
>
    decreases headers.len(),
{
    if headers.len() == 0 {
        None
    } else if lowercase(headers[0].0@) == lowercase(name) {
        Some(headers[0].1@)
    } else {
        header_value(headers.skip(1), name)
    }
}

/// The number that a header holds, around which there may be white space.
pub open spec fn header_number(headers: Seq<(String, String)>, name: Seq<char>) -> Option<u64> {
    match header_value(headers, name) {
        Some(value) => parsed_u64(trimmed(value), 10),
        None => None,
    }
}

/// The number in the first of two headers that holds one.
pub open spec fn either_header_number(
    headers: Seq<(String, String)>,
    name: Seq<char>,
    other_name: Seq<char>,
) -> Option<u64> {
    match header_number(headers, name) {
        Some(number) => Some(number),
        None => header_number(headers, other_name),
    }
}

/// The requests that the headers say are left.
pub open spec fn remaining_in(headers: Seq<(String, String)>) -> Option<u64> {
    either_header_number(headers, "x-ratelimit-remaining"@, "ratelimit-remaining"@)
}

/// The requests that the headers say are allowed.
pub open spec fn limit_in(headers: Seq<(String, String)>) -> Option<u64> {
    either_header_number(headers, "x-ratelimit-limit"@, "ratelimit-limit"@)
}

/// Whether the headers say that this much of the rate limit is left.
pub open spec fn is_headroom(
    headers: Seq<(String, String)>,
    headroom: Option<RateLimitHeadroom>,
) -> bool {
    &&& headroom is Some <==> remaining_in(headers) is Some && limit_in(headers) is Some
        && limit_in(headers)->0 != 0
    &&& headroom matches Some(h) ==> {
        let remaining = remaining_in(headers)->0;
        let limit = limit_in(headers)->0;
        h.allowed() == limit && h.left() == (if remaining <= limit {
            remaining
        } else {
            limit
        })
    }
}

fn find_header<'a>(headers: &'a Vec<(String, String)>, name: &str) -> (value: Option<&'a str>)
    ensures
        (match value {
            Some(v) => header_value(headers@, name@) == Some(v@),
            None => header_value(headers@, name@) is None,
        }),
{
    let mut i: usize = 0;
    assert(headers@.skip(0) =~= headers@);
    while i < headers.len()
        invariant
            i <= headers@.len(),
            header_value(headers@.skip(i as int), name@) == header_value(headers@, name@),
        decreases headers@.len() - i,
    {
        assert(headers@.skip(i as int).skip(1) =~= headers@.skip(i + 1));
        assert(headers@.skip(i as int)[0] == headers@[i as int]);
        if same_ignoring_case(headers[i].0.as_str(), name) {
            return Some(headers[i].1.as_str());
        }
        i = i + 1;
    }
    None
}

fn read_header_number(headers: &Vec<(String, String)>, name: &str) -> (number: Option<u64>)
    ensures
        number == header_number(headers@, name@),
{
    match find_header(headers, name) {
        Some(value) => parse_u64(value.trim(), 10),
        None => None,
    }
}

/// Reads the number in the first of two headers that holds one.
pub fn parse_header_u64(headers: &Vec<(String, String)>, name: &str, other_name: &str) -> (number:
    Option<u64>)
    ensures
        number == either_header_number(headers@, name@, other_name@),
{
    match read_header_number(headers, name) {
        Some(number) => Some(number),
        None => read_header_number(headers, other_name),
    }
}

/// Reads from a response's headers how much of the rate limit is left.
pub fn parse_rate_limit_headroom(headers: &Vec<(String, String)>) -> (headroom: Option<
    RateLimitHeadroom,
>)
    ensures
        is_headroom(headers@, headroom),
{
    let remaining: Option<u64> = parse_header_u64(
        headers,
        "x-ratelimit-remaining",
        "ratelimit-remaining",
    );
    let limit: Option<u64> = parse_header_u64(headers, "x-ratelimit-limit", "ratelimit-limit");
    match (remaining, limit) {
        (Some(remaining), Some(limit)) => RateLimitHeadroom::new(remaining, limit),
        _ => None,
    }
}

/// A header is found by its name, in whatever case, and the first one of that name
/// counts; none is found where none has that name.
pub proof fn first_header_counts(headers: Seq<(String, String)>, name: Seq<char>)
    ensures
        header_value(headers, name) matches Some(value) ==> exists|i: int|
            0 <= i < headers.len() && lowercase((#[trigger] headers[i]).0@) == lowercase(name)
                && headers[i].1@ == value && forall|k: int|
                0 <= k < i ==> lowercase((#[trigger] headers[k]).0@) != lowercase(name),
        header_value(headers, name) is None ==> forall|k: int|
            0 <= k < headers.len() ==> lowercase((#[trigger] headers[k]).0@) != lowercase(name),
    decreases headers.len(),
{
    if headers.len() > 0 && lowercase(headers[0].0@) != lowercase(name) {
        let rest = headers.skip(1);
        first_header_counts(rest, name);
        if header_value(rest, name) is Some {
            let i = choose|i: int|
                0 <= i < rest.len() && lowercase((#[trigger] rest[i]).0@) == lowercase(name)
                    && rest[i].1@ == header_value(rest, name)->0 && forall|k: int|
                    0 <= k < i ==> lowercase((#[trigger] rest[k]).0@) != lowercase(name);
            assert(headers[i + 1] == rest[i]);
            assert forall|k: int| 0 <= k < i + 1 implies lowercase((#[trigger] headers[k]).0@)
                != lowercase(name) by {
                if k > 0 {
                    assert(rest[k - 1] == headers[k]);
                }
            }
        } else {
            assert forall|k: int| 0 <= k < headers.len() implies lowercase(
                (#[trigger] headers[k]).0@,
            ) != lowercase(name) by {
                if k > 0 {
                    assert(rest[k - 1] == headers[k]);
                }
            }
        }
    }
}

/// The number that a header holds, in decimal and with white space around it at
/// most.
pub open spec fn holds_number(headers: Seq<(String, String)>, name: Seq<char>, number: u64) -> bool {
    exists|value: Seq<char>| #[trigger]
        header_value(headers, name) == Some(value) && parsed_u64(trimmed(value), 10) == Some(number)
}

/// What is left of a rate limit is what the headers say: the numbers under
/// `x-ratelimit-remaining` and `x-ratelimit-limit`, and no more than the limit.
pub proof fn headroom_is_what_the_headers_say(
    headers: Seq<(String, String)>,
    remaining: u64,
    limit: u64,
    headroom: Option<RateLimitHeadroom>,
)
    requires
        holds_number(headers, "x-ratelimit-remaining"@, remaining),
        holds_number(headers, "x-ratelimit-limit"@, limit),
        is_headroom(headers, headroom),
    ensures
        limit == 0 ==> headroom is None,
        limit > 0 ==> headroom is Some && headroom->0.allowed() == limit,
        limit > 0 && remaining <= limit ==> headroom->0.left() == remaining,
        limit > 0 && remaining > limit ==> headroom->0.left() == limit,
{
}

/// Where a header with the prefix holds no number, the one without it counts; and
/// where neither of a pair holds one, nothing is known of the rate limit.
pub proof fn headers_without_prefix_stand_in(
    headers: Seq<(String, String)>,
    remaining: u64,
    limit: u64,
    headroom: Option<RateLimitHeadroom>,
)
    requires
        forall|number: u64| !holds_number(headers, "x-ratelimit-remaining"@, number),
        forall|number: u64| !holds_number(headers, "x-ratelimit-limit"@, number),
        is_headroom(headers, headroom),
    ensures
        holds_number(headers, "ratelimit-remaining"@, remaining) && holds_number(
            headers,
            "ratelimit-limit"@,
            limit,
        ) && limit > 0 ==> headroom is Some && headroom->0.allowed() == limit
            && headroom->0.left() == (if remaining <= limit {
            remaining
        } else {
            limit
        }),
        (forall|number: u64| !holds_number(headers, "ratelimit-remaining"@, number))
            ==> headroom is None,
        (forall|number: u64| !holds_number(headers, "ratelimit-limit"@, number)) ==> headroom
            is None,
{
    lemma_number_is_held(headers, "x-ratelimit-remaining"@);
    lemma_number_is_held(headers, "x-ratelimit-limit"@);
    lemma_number_is_held(headers, "ratelimit-remaining"@);
    lemma_number_is_held(headers, "ratelimit-limit"@);
}

proof fn lemma_number_is_held(headers: Seq<(String, String)>, name: Seq<char>)
    ensures
        header_number(headers, name) matches Some(number) ==> holds_number(headers, name, number),
{
    if header_number(headers, name) is Some {
        assert(header_value(headers, name) == Some(header_value(headers, name)->0));
    }
}

} // verus!
