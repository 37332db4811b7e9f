//! The normalized document: the title on the first line, the body below it.

use vstd::prelude::*;
use vstd::string::StringExecFns;
use crate::content::{body_text, get_all_text_anchors, pipeline_accepted};
use crate::error::ConvertError;
use crate::title::{get_crate_title, sanitized, title_text};

verus! {

/// The document made of a title and a body: the title, a newline, the body.
pub open spec fn document_of(title: Seq<char>, body: Seq<char>) -> Seq<char> {
    title + seq!['\n'] + body
}

/// Puts title and body together into the document.
pub fn normalized_document(title: &str, body: &str) -> (document: String)
    ensures
        document@ == document_of(title@, body@),
{
    let mut document = String::from_str(title);
    document.push('\n');
    document.append(body);
    document
}

/// The name of the file that a document with this title is kept under.
pub fn corpus_file_name(title: &str) -> (name: String)
    ensures
        name@ == title@ + ".txt"@,
{
    let mut name = String::from_str(title);
    name.append(".txt");
    name
}

/// Converts a page into its document. A page without a title gives
/// `MissingTitle` and no document; otherwise the conversion fails only when
/// the engine refuses one of the pipeline's patterns.
pub fn convert_page(html_body: &str) -> (result: Result<String, ConvertError>)
    ensures
        match result {
            Ok(document) => {
                &&& title_text(html_body@) is Some
                &&& pipeline_accepted()
                &&& document@ == document_of(
                    sanitized(title_text(html_body@).unwrap()),
                    body_text(html_body@),
                )
            },
            Err(ConvertError::MissingTitle) => title_text(html_body@) is None,
            Err(ConvertError::RejectedPattern) => title_text(html_body@) is Some
                && !pipeline_accepted(),
        },
{
    let title = get_crate_title(html_body.to_owned())?;
    let body = get_all_text_anchors(html_body.to_owned())?;
    Ok(normalized_document(title.as_str(), body.as_str()))
}

} // verus!
