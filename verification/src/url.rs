//! Expansion of shorthand URLs into absolute ones.

use vstd::prelude::*;
use vstd::string::*;
use crate::text::{has_prefix, join, lemma_prefix_of_concat, lemma_prefix_transitive, starts_with, tail_from};

verus! {

/// The absolute URL that a URL token stands for. The rules, first match wins:
/// `:/path` is a path on localhost; `:port/path` is localhost with a port;
/// anything else that does not begin with `http` gets the scheme `http://`;
/// what begins with `http` is taken as it is.
pub open spec fn normalized(input: Seq<char>) -> Seq<char> {
    if has_prefix(input, ":/"@) {
        "http://localhost"@ + input.skip(1)
    } else if has_prefix(input, ":"@) {
        "http://localhost"@ + input
    } else if !has_prefix(input, "http"@) {
        "http://"@ + input
    } else {
        input
    }
}

/// Expands a URL token into an absolute URL.
pub fn normalize(input: &str) -> (url: String)
    ensures
        url@ == normalized(input@),
{
    if starts_with(input, ":/") {
        proof {
            reveal_strlit(":/");
        }
        let path = tail_from(input, 1);
        join("http://localhost", path.as_str())
    } else if starts_with(input, ":") {
        join("http://localhost", input)
    } else if !starts_with(input, "http") {
        join("http://", input)
    } else {
        String::from_str(input)
    }
}

/// Every normalized URL begins with `http`.
pub proof fn lemma_normalized_has_scheme(input: Seq<char>)
    ensures
        has_prefix(normalized(input), "http"@),
{
    reveal_strlit("http");
    reveal_strlit("http://");
    reveal_strlit("http://localhost");
    let url = normalized(input);
    if has_prefix(input, ":/"@) || has_prefix(input, ":"@) {
        let rest = url.skip("http://localhost"@.len() as int);
        assert(url =~= "http://localhost"@ + rest);
        lemma_prefix_of_concat("http://localhost"@, rest);
        assert("http://localhost"@.subrange(0, 4) =~= "http"@);
        lemma_prefix_transitive(url, "http://localhost"@, "http"@);
    } else if !has_prefix(input, "http"@) {
        lemma_prefix_of_concat("http://"@, input);
        assert("http://"@.subrange(0, 4) =~= "http"@);
        lemma_prefix_transitive(url, "http://"@, "http"@);
    }
}

/// An input that begins with `http` is left as it is.
pub proof fn lemma_absolute_unchanged(input: Seq<char>)
    requires
        has_prefix(input, "http"@),
    ensures
        normalized(input) == input,
{
    reveal_strlit("http");
    reveal_strlit(":");
    reveal_strlit(":/");
    assert(input.subrange(0, 4)[0] == 'h');
    if has_prefix(input, ":"@) {
        assert(input.subrange(0, 1)[0] == ':');
    }
    if has_prefix(input, ":/"@) {
        assert(input.subrange(0, 2)[0] == ':');
    }
}

/// Normalizing is idempotent: a normalized URL normalizes to itself.
pub proof fn lemma_normalize_idempotent(input: Seq<char>)
    ensures
        normalized(normalized(input)) == normalized(input),
{
    lemma_normalized_has_scheme(input);
    lemma_absolute_unchanged(normalized(input));
}

} // verus!
