//! URIs.
use vstd::prelude::*;
use vstd::string::*;
use crate::text::{trim_end, trim_start, trimmed_end, trimmed_start};

verus! {

/// How the `http::Uri` that a text is parsed as is written; where the text is no URI, the message of
/// the error.
pub uninterp spec fn uri_written(text: Seq<char>) -> Result<Seq<char>, Seq<char>>;

/// What a result of texts stands for.
pub open spec fn view_result(result: Result<String, String>) -> Result<Seq<char>, Seq<char>> {
    match result {
        Ok(text) => Ok(text@),
        Err(error) => Err(error@),
    }
}

/// `str::parse` to an `http::Uri`, which is written as text again: what the name `uri_written`
/// stands for.
#[verifier::external_body]
pub(crate) fn parse_uri(text: &str) -> (result: Result<String, String>)
    ensures
        view_result(result) == uri_written(text@),
{
    match text.parse::<http::Uri>() {
        Ok(uri) => Ok(uri.to_string()),
        Err(error) => Err(error.to_string()),
    }
}

/// A base and a path with one slash between them.
pub open spec fn joined(base: Seq<char>, path: Seq<char>) -> Seq<char> {
    trimmed_end(base, '/') + "/"@ + trimmed_start(path, '/')
}

/// Joins a base and a path with one slash between them.
pub fn join_path(base: &str, path: &str) -> (joint: String)
    ensures
        joint@ == joined(base@, path@),
{
    let mut joint = trim_end(base, '/').to_owned();
    joint.append("/");
    joint.append(trim_start(path, '/'));
    joint
}

/// Appends a path to a URI.
pub fn append_path(base: &str, path: &str) -> (result: Result<String, String>)
    ensures
        view_result(result) == uri_written(joined(base@, path@)),
{
    let joint = join_path(base, path);
    parse_uri(joint.as_str())
}

/// The URI of a path under an endpoint.
pub open spec fn endpoint_of(endpoint: Seq<char>, path: Seq<char>) -> Result<Seq<char>, Seq<char>> {
    match uri_written(endpoint) {
        Ok(base) => uri_written(joined(base, path)),
        Err(error) => Err(error),
    }
}

proof fn lemma_trimmed_start(text: Seq<char>, mark: char)
    ensures
        trimmed_start(text, mark).len() > 0 ==> trimmed_start(text, mark)[0] != mark,
        trimmed_start(seq![mark] + text, mark) == trimmed_start(text, mark),
    decreases text.len(),
{
    assert((seq![mark] + text).drop_first() =~= text);
    if text.len() > 0 && text[0] == mark {
        lemma_trimmed_start(text.drop_first(), mark);
    }
}

proof fn lemma_trimmed_end(text: Seq<char>, mark: char)
    ensures
        trimmed_end(text.push(mark), mark) == trimmed_end(text, mark),
{
    assert(text.push(mark).drop_last() =~= text);
}

/// It makes no difference whether the base ends with a slash, nor whether the path starts with one.
pub proof fn law_slashes_make_no_difference(base: Seq<char>, path: Seq<char>)
    ensures
        joined(base.push('/'), path) == joined(base, path),
        joined(base, seq!['/'] + path) == joined(base, path),
{
    lemma_trimmed_end(base, '/');
    lemma_trimmed_start(path, '/');
}

}
