use docs_corpus::document::convert_page;
use docs_corpus::error::ConvertError;
use docs_corpus::title::{get_crate_title, is_forbidden_char, sanitize_title};

#[test]
fn title_round_trip() {
    let markup = "<html><head><title>My Crate: Docs!</title></head></html>".to_string();
    assert_eq!(get_crate_title(markup), Ok("MyCrateDocs".to_string()));
}

#[test]
fn title_of_bare_element() {
    assert_eq!(
        get_crate_title("<title>My Crate: Docs!</title>".to_string()),
        Ok("MyCrateDocs".to_string())
    );
}

#[test]
fn missing_title_is_an_error() {
    let markup = "<html><body><p>no heading here</p></body></html>".to_string();
    assert_eq!(get_crate_title(markup), Err(ConvertError::MissingTitle));
}

#[test]
fn missing_title_gives_no_document() {
    let markup = "<html><body><p>no heading here</p></body></html>";
    assert_eq!(convert_page(markup), Err(ConvertError::MissingTitle));
}

#[test]
fn empty_markup_has_no_title() {
    assert_eq!(get_crate_title(String::new()), Err(ConvertError::MissingTitle));
}

#[test]
fn unclosed_title_is_missing() {
    assert_eq!(
        get_crate_title("<title>never closed".to_string()),
        Err(ConvertError::MissingTitle)
    );
}

#[test]
fn closer_before_opener_does_not_count() {
    assert_eq!(
        get_crate_title("</title><title>late".to_string()),
        Err(ConvertError::MissingTitle)
    );
}

#[test]
fn first_title_wins() {
    let markup = "<title>first</title><title>second</title>".to_string();
    assert_eq!(get_crate_title(markup), Ok("first".to_string()));
}

#[test]
fn title_runs_to_the_first_closer() {
    let markup = "<title>a<title>b</title>c</title>".to_string();
    assert_eq!(get_crate_title(markup), Ok("atitleb".to_string()));
}

#[test]
fn empty_title_is_a_title() {
    assert_eq!(get_crate_title("<title></title>".to_string()), Ok(String::new()));
}

#[test]
fn title_keeps_case_and_length() {
    let markup = "<title>ABC def GHI jkl MNO pqr STU vwx YZ 0123456789</title>".to_string();
    assert_eq!(
        get_crate_title(markup),
        Ok("ABCdefGHIjklMNOpqrSTUvwxYZ0123456789".to_string())
    );
}

#[test]
fn title_with_letters_beyond_ascii() {
    let markup = "\u{e9}t\u{e9} <title>Caf\u{e9} \u{4e16}\u{754c}: ok</title>".to_string();
    assert_eq!(get_crate_title(markup), Ok("Caf\u{e9}\u{4e16}\u{754c}ok".to_string()));
}

#[test]
fn every_forbidden_character_is_removed() {
    let raw = "a b/c:d?e!f(g)h[i]j{k}l;m,n.o'p\"q\\r|s<t>u*v";
    assert_eq!(sanitize_title(raw), "abcdefghijklmnopqrstuv");
}

#[test]
fn only_forbidden_characters_leave_nothing() {
    assert_eq!(sanitize_title(" /:?!()[]{};,.'\"\\|<>*"), "");
}

#[test]
fn other_punctuation_stays() {
    assert_eq!(sanitize_title("a-b_c+d=e&f#g@h~i"), "a-b_c+d=e&f#g@h~i");
}

#[test]
fn sanitizing_twice_changes_nothing() {
    let once = sanitize_title("tokio::sync - Rust (docs.rs)");
    assert_eq!(once, "tokiosync-Rustdocsrs");
    let twice = sanitize_title(&once);
    assert_eq!(twice, once);
}

#[test]
fn sanitized_title_holds_no_forbidden_character() {
    let title = sanitize_title("serde_json: JSON (de)serialization, fast!");
    assert_eq!(title, "serde_jsonJSONdeserializationfast");
    assert!(title.chars().all(|c| !is_forbidden_char(c)));
}

#[test]
fn forbidden_set_is_exact() {
    let forbidden = " /:?!()[]{};,.'\"\\|<>*";
    assert_eq!(forbidden.chars().count(), 21);
    for c in forbidden.chars() {
        assert!(is_forbidden_char(c));
    }
    for c in "abcXYZ019-_+=&#@~^%$`\n\t".chars() {
        assert!(!is_forbidden_char(c));
    }
}
