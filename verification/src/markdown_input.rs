//! Where the Markdown of a new proposition, revision or comment comes from:
//! a `--message`, a file (or stdin), or the user's editor, and when what
//! came back from the editor is refused.

use vstd::prelude::*;
use crate::errors::{FactError, Failure};
use crate::text::{is_ascii_whitespace_byte, text_bytes};
use vstd::utf8::encode_utf8;

verus! {

/// The source of the Markdown, as the options choose it.
#[derive(Debug)]
pub enum MarkdownSource {
    /// The bytes of `--message`, ending in a line feed.
    Message(Vec<u8>),
    /// The file given (`-` for stdin).
    File,
    /// Neither was given: the editor is opened (or, where the Markdown is
    /// optional, there is none).
    Editor,
}

/// The text of `--message` as Markdown bytes: its UTF-8 encoding, with a
/// line feed added unless it already ends in one.
pub open spec fn message_markdown(message: Seq<char>) -> Seq<u8> {
    let bytes = encode_utf8(message);
    if bytes.len() > 0 && bytes.last() == 0x0a {
        bytes
    } else {
        bytes.push(0x0a)
    }
}

/// The error for a file and a message given together.
pub open spec fn both_sources_error() -> Failure {
    Failure::User("choose a file/stdin input or --message, not both"@)
}

/// The Markdown bytes of a `--message`.
pub fn message_markdown_bytes(message: &str) -> (b: Vec<u8>)
    ensures
        b@ == message_markdown(message@),
{
    let mut bytes = text_bytes(message);
    let n = bytes.len();
    if n == 0 || bytes[n - 1] != 0x0a {
        bytes.push(0x0a);
    }
    bytes
}

/// Chooses where the Markdown comes from.
pub fn markdown_source(file_given: bool, message: Option<&str>) -> (r: Result<
    MarkdownSource,
    FactError,
>)
    ensures
        match r {
            Ok(MarkdownSource::Message(b)) => {
                &&& !file_given
                &&& message matches Some(m) && b@ == message_markdown(m@)
            },
            Ok(MarkdownSource::File) => file_given && message is None,
            Ok(MarkdownSource::Editor) => !file_given && message is None,
            Err(e) => file_given && message is Some && e@ == both_sources_error(),
        },
{
    if file_given && message.is_some() {
        return Err(FactError::User("choose a file/stdin input or --message, not both".to_owned()));
    }
    match message {
        Some(m) => Ok(MarkdownSource::Message(message_markdown_bytes(m))),
        None => if file_given {
            Ok(MarkdownSource::File)
        } else {
            Ok(MarkdownSource::Editor)
        },
    }
}

/// What the editor starts with when no content is given.
pub open spec fn editor_placeholder() -> Seq<u8> {
    "# Import a proposition\n\n"@.map_values(|c: char| c as u8)
}

/// The placeholder's bytes.
pub fn editor_placeholder_bytes() -> (b: Vec<u8>)
    ensures
        b@ == editor_placeholder(),
{
    let b: Vec<u8> = vec![
        0x23, 0x20, 0x49, 0x6d, 0x70, 0x6f, 0x72, 0x74, 0x20, 0x61, 0x20, 0x70, 0x72, 0x6f,
        0x70, 0x6f, 0x73, 0x69, 0x74, 0x69, 0x6f, 0x6e, 0x0a, 0x0a,
    ];
    proof {
        reveal_strlit("# Import a proposition\n\n");
        assert(b@ =~= editor_placeholder());
    }
    b
}

/// The content the editor is opened with: the given content, else the
/// placeholder.
pub fn editor_start_content(initial: Option<&[u8]>) -> (b: Vec<u8>)
    ensures
        b@ == match initial {
            Some(i) => i@,
            None => editor_placeholder(),
        },
{
    match initial {
        Some(i) => vstd::slice::slice_to_vec(i),
        None => editor_placeholder_bytes(),
    }
}

/// Every byte is ASCII whitespace (so also when there is none).
pub open spec fn all_ascii_whitespace(bytes: Seq<u8>) -> bool {
    forall|i: int| 0 <= i < bytes.len() ==> is_ascii_whitespace_byte(#[trigger] bytes[i])
}

/// Whether what the editor left is refused: blank, or the untouched
/// placeholder when the editor started from it.
pub open spec fn edited_markdown_refused(bytes: Seq<u8>, initial_given: bool) -> bool {
    all_ascii_whitespace(bytes) || (!initial_given && bytes == editor_placeholder())
}

/// Refuses what the editor left when nothing was written.
pub fn check_edited_markdown(bytes: &[u8], initial_given: bool) -> (r: Result<(), FactError>)
    ensures
        match r {
            Ok(()) => !edited_markdown_refused(bytes@, initial_given),
            Err(e) => edited_markdown_refused(bytes@, initial_given) && e@ == Failure::User(
                "empty proposition was not created"@,
            ),
        },
{
    let mut blank = true;
    let mut i: usize = 0;
    while i < bytes.len()
        invariant
            i <= bytes@.len(),
            blank == all_ascii_whitespace(bytes@.take(i as int)),
        decreases bytes@.len() - i,
    {
        let b = bytes[i];
        let ws = b == 0x20 || b == 0x09 || b == 0x0a || b == 0x0c || b == 0x0d;
        proof {
            let t = bytes@.take(i + 1);
            assert(t.drop_last() =~= bytes@.take(i as int));
            if blank && ws {
                assert forall|k: int| 0 <= k < t.len() implies is_ascii_whitespace_byte(
                    #[trigger] t[k],
                ) by {
                    if k < i {
                        assert(t[k] == bytes@.take(i as int)[k]);
                    }
                }
            }
            if !ws {
                assert(!is_ascii_whitespace_byte(t[i as int]));
            }
            if !blank {
                let k = choose|k: int|
                    0 <= k < i && !is_ascii_whitespace_byte(#[trigger] bytes@.take(i as int)[k]);
                assert(t[k] == bytes@.take(i as int)[k]);
            }
        }
        blank = blank && ws;
        i = i + 1;
    }
    assert(bytes@.take(bytes@.len() as int) =~= bytes@);
    let mut refused = blank;
    if !blank && !initial_given {
        let placeholder = editor_placeholder_bytes();
        let mut same = bytes.len() == placeholder.len();
        let mut j: usize = 0;
        while same && j < bytes.len()
            invariant
                j <= bytes@.len(),
                same ==> bytes@.len() == placeholder@.len(),
                same ==> forall|k: int| 0 <= k < j ==> bytes@[k] == placeholder@[k],
                !same ==> bytes@ != placeholder@,
            decreases bytes@.len() - j,
        {
            if bytes[j] != placeholder[j] {
                same = false;
            }
            j = j + 1;
        }
        if same {
            assert(bytes@ =~= placeholder@);
        }
        refused = same;
    }
    if refused {
        Err(FactError::User("empty proposition was not created".to_owned()))
    } else {
        Ok(())
    }
}

/// The editor to open: `$VISUAL`, else `$EDITOR`, else `vi`.
pub fn chosen_editor(visual: Option<String>, editor: Option<String>) -> (r: String)
    ensures
        r@ == match (visual, editor) {
            (Some(v), _) => v@,
            (None, Some(e)) => e@,
            (None, None) => "vi"@,
        },
{
    match visual {
        Some(v) => v,
        None => match editor {
            Some(e) => e,
            None => "vi".to_owned(),
        },
    }
}

} // verus!
