use fact_cli::errors::FactError;
use fact_cli::markdown_input::{
    check_edited_markdown, chosen_editor, editor_start_content, markdown_source,
    message_markdown_bytes, MarkdownSource,
};

#[test]
fn message_gets_a_final_line_feed() {
    assert_eq!(message_markdown_bytes("# Title"), b"# Title\n".to_vec());
    assert_eq!(message_markdown_bytes("# Title\n"), b"# Title\n".to_vec());
    assert_eq!(message_markdown_bytes(""), b"\n".to_vec());
}

#[test]
fn markdown_source_choice() {
    assert!(matches!(markdown_source(true, None), Ok(MarkdownSource::File)));
    assert!(matches!(markdown_source(false, None), Ok(MarkdownSource::Editor)));
    match markdown_source(false, Some("# A")) {
        Ok(MarkdownSource::Message(bytes)) => assert_eq!(bytes, b"# A\n".to_vec()),
        other => panic!("unexpected: {other:?}"),
    }
    match markdown_source(true, Some("# A")) {
        Err(FactError::User(m)) => {
            assert_eq!(m, "choose a file/stdin input or --message, not both")
        }
        other => panic!("unexpected: {other:?}"),
    }
}

#[test]
fn edited_markdown_that_says_nothing_is_refused() {
    assert!(check_edited_markdown(b"  \n\t\n", false).is_err());
    assert!(check_edited_markdown(b"", true).is_err());
    assert!(check_edited_markdown(b"# Import a proposition\n\n", false).is_err());
    assert!(check_edited_markdown(b"# Import a proposition\n\n", true).is_ok());
    assert!(check_edited_markdown(b"# Plan\n\nShip it.\n", false).is_ok());
    match check_edited_markdown(b"\n", false) {
        Err(FactError::User(m)) => assert_eq!(m, "empty proposition was not created"),
        other => panic!("unexpected: {other:?}"),
    }
}

#[test]
fn editor_start_and_choice() {
    assert_eq!(editor_start_content(None), b"# Import a proposition\n\n".to_vec());
    assert_eq!(editor_start_content(Some(b"# Old\n")), b"# Old\n".to_vec());
    assert_eq!(chosen_editor(Some("code -w".into()), Some("nano".into())), "code -w");
    assert_eq!(chosen_editor(None, Some("nano".into())), "nano");
    assert_eq!(chosen_editor(None, None), "vi");
}
