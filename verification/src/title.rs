//! The title extractor: the text of the first `<title>` element, with every
//! character removed that does not belong in a file name.

use vstd::prelude::*;
use crate::error::ConvertError;
use crate::text::{chars_of, find, find_from, lemma_find_from_is_first, occurs_at, string_of};

verus! {

/// The characters that a title may not hold: the space and the punctuation
/// that file systems, paths and shells give a meaning to.
pub open spec fn is_forbidden(c: char) -> bool {
    ||| c == ' '
    ||| c == '/'
    ||| c == ':'
    ||| c == '?'
    ||| c == '!'
    ||| c == '('
    ||| c == ')'
    ||| c == '['
    ||| c == ']'
    ||| c == '{'
    ||| c == '}'
    ||| c == ';'
    ||| c == ','
    ||| c == '.'
    ||| c == '\''
    ||| c == '"'
    ||| c == '\\'
    ||| c == '|'
    ||| c == '<'
    ||| c == '>'
    ||| c == '*'
}

/// The test that a character of a title has to pass.
pub open spec fn allowed() -> spec_fn(char) -> bool {
    |c: char| !is_forbidden(c)
}

/// `raw` without its forbidden characters. The others keep their order, so
/// words that a forbidden character held apart close up.
pub open spec fn sanitized(raw: Seq<char>) -> Seq<char> {
    raw.filter(allowed())
}

/// The marker that opens the title.
pub open spec fn open_marker() -> Seq<char> {
    "<title>"@
}

/// The marker that closes the title.
pub open spec fn close_marker() -> Seq<char> {
    "</title>"@
}

/// The text between the first `<title>` and the first `</title>` after it,
/// or `None` where the markup holds no such pair.
pub open spec fn title_text(markup: Seq<char>) -> Option<Seq<char>> {
    match find_from(markup, open_marker(), 0) {
        None => None,
        Some(open_at) => {
            let start = open_at + open_marker().len();
            match find_from(markup, close_marker(), start) {
                None => None,
                Some(close_at) => Some(markup.subrange(start, close_at)),
            }
        },
    }
}

/// Tells whether `c` is one of the forbidden characters.
pub fn is_forbidden_char(c: char) -> (forbidden: bool)
    ensures
        forbidden == is_forbidden(c),
{
    c == ' ' || c == '/' || c == ':' || c == '?' || c == '!' || c == '(' || c == ')' || c == '['
        || c == ']' || c == '{' || c == '}' || c == ';' || c == ',' || c == '.' || c == '\''
        || c == '"' || c == '\\' || c == '|' || c == '<' || c == '>' || c == '*'
}

/// Removes the forbidden characters from `raw`.
pub fn sanitize_title(raw: &str) -> (title: String)
    ensures
        title@ == sanitized(raw@),
        forall|i: int| 0 <= i < title@.len() ==> !is_forbidden(#[trigger] title@[i]),
{
    let mut title = String::new();
    proof {
        reveal(Seq::filter);
        assert(raw@.take(0).filter(allowed()) == Seq::<char>::empty());
    }
    for c in it: raw.chars()
        invariant
            it.seq() == raw@,
            title@ == sanitized(raw@.take(it.index())),
    {
        proof {
            reveal(Seq::filter);
            let seen = raw@.take(it.index());
            assert(raw@.take(it.index() + 1) == seen.push(c));
            assert(seen.push(c).drop_last() == seen);
        }
        if !is_forbidden_char(c) {
            title.push(c);
        }
    }
    proof {
        assert(raw@.take(raw@.len() as int) == raw@);
        lemma_sanitized_is_clean(raw@);
    }
    title
}

/// Extracts the title of a page: the text between the first `<title>` and
/// the first `</title>` after it, sanitized. Fails exactly when the markup
/// holds no such pair.
pub fn get_crate_title(html_body: String) -> (result: Result<String, ConvertError>)
    ensures
        match result {
            Ok(title) => title_text(html_body@) is Some && title@ == sanitized(
                title_text(html_body@).unwrap(),
            ),
            Err(e) => title_text(html_body@) is None && e == ConvertError::MissingTitle,
        },
{
    let markup = chars_of(html_body.as_str());
    let open = chars_of("<title>");
    let close = chars_of("</title>");
    match find(&markup, &open, 0) {
        None => Err(ConvertError::MissingTitle),
        Some(open_at) => {
            assert(open_at + open@.len() <= markup.len());
            let start = open_at + open.len();
            match find(&markup, &close, start) {
                None => Err(ConvertError::MissingTitle),
                Some(close_at) => {
                    let raw = string_of(&markup, start, close_at);
                    Ok(sanitize_title(raw.as_str()))
                },
            }
        },
    }
}

/// A sanitized title holds no forbidden character.
pub proof fn lemma_sanitized_is_clean(raw: Seq<char>)
    ensures
        forall|i: int|
            0 <= i < sanitized(raw).len() ==> !is_forbidden(#[trigger] sanitized(raw)[i]),
{
    assert forall|i: int| 0 <= i < sanitized(raw).len() implies !is_forbidden(
        #[trigger] sanitized(raw)[i],
    ) by {
        raw.lemma_filter_pred(allowed(), i);
    }
}

/// Sanitizing is idempotent: a sanitized title is left as it is.
pub proof fn lemma_sanitized_idempotent(raw: Seq<char>)
    ensures
        sanitized(sanitized(raw)) == sanitized(raw),
    decreases raw.len(),
{
    reveal(Seq::filter);
    if raw.len() > 0 {
        let front = raw.drop_last();
        lemma_sanitized_idempotent(front);
        if allowed()(raw.last()) {
            let kept = sanitized(front).push(raw.last());
            assert(sanitized(raw) == kept);
            assert(kept.drop_last() == sanitized(front));
        }
    }
}

/// Markup in which `<title>` stands nowhere has no title.
pub proof fn lemma_no_open_marker_no_title(markup: Seq<char>)
    requires
        forall|at: int| !occurs_at(markup, open_marker(), at),
    ensures
        title_text(markup) is None,
{
    lemma_find_from_is_first(markup, open_marker(), 0);
}

} // verus!
