//! Choosing the client address that a request is counted under.
use vstd::prelude::*;
use vstd::string::*;

use crate::text::opt_text;

verus! {

/// Index just past the last comma among the first `n` characters of `s`, or 0
/// when they hold none.
pub open spec fn segment_start(s: Seq<char>, n: int) -> int
    decreases n,
{
    if n <= 0 {
        0
    } else if s[n - 1] == ',' {
        n
    } else {
        segment_start(s, n - 1)
    }
}

/// The characters of `s` after its last comma (all of `s` when it holds none).
pub open spec fn last_segment(s: Seq<char>) -> Seq<char> {
    s.subrange(segment_start(s, s.len() as int), s.len() as int)
}

/// The address a request is counted under: the trusted proxy's header when it
/// is present and non-empty, else the last entry of the forwarded-for chain,
/// else the connection's own address.
pub open spec fn client_address(
    envoy: Option<Seq<char>>,
    forwarded: Option<Seq<char>>,
    connection: Seq<char>,
) -> Seq<char> {
    if envoy is Some && envoy->0.len() > 0 {
        envoy->0
    } else if forwarded is Some {
        last_segment(forwarded->0)
    } else {
        connection
    }
}

/// The entry after the last comma of a forwarded-for header.
pub fn last_forwarded(header: &str) -> (r: String)
    ensures
        r@ == last_segment(header@),
{
    let n = header.unicode_len();
    let mut start: usize = 0;
    let mut i: usize = 0;
    while i < n
        invariant
            n == header@.len(),
            i <= n,
            start <= i,
            start as int == segment_start(header@, i as int),
        decreases n - i,
    {
        if header.get_char(i) == ',' {
            start = i + 1;
        }
        i += 1;
    }
    header.substring_char(start, n).to_owned()
}

/// The client address of a request, from the value of its
/// `x-envoy-external-address` header, of its `x-forwarded-for` header (each
/// where present and readable as text) and the canonical form of the
/// connection's peer address.
pub fn get_ip(envoy: &Option<String>, forwarded: &Option<String>, connection: &String) -> (r:
    String)
    ensures
        r@ == client_address(opt_text(*envoy), opt_text(*forwarded), connection@),
{
    if let Some(e) = envoy {
        if !e.as_str().is_empty() {
            return e.clone();
        }
    }
    match forwarded {
        Some(f) => last_forwarded(f.as_str()),
        None => connection.clone(),
    }
}

} // verus!
