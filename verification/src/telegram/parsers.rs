//! Message-content extraction: the auxiliary step of the update normalizer
//! that turns raw message content into plain text plus an optional embedded
//! file reference.
//!
//! Recognized media kinds are document, audio, video, animation and image;
//! only an image is auto-downloaded, so only an image yields a file record
//! here. Every other content kind is discarded, which is a deliberate no-op,
//! not an error.

use vstd::prelude::*;

use crate::models::{File, FileView};
use crate::telegram::{file_of, new_file};

verus! {

/// Raw backend file data: the transient download handle, the stable remote
/// identifier, and the local path, which is empty until a download completes.
#[derive(Debug)]
pub struct FileInfo {
    pub local_path: String,
    pub id: i32,
    pub unique_id: String,
}

/// Formatted message text: a list of text runs that concatenate to the plain
/// content.
#[derive(Debug)]
pub struct FormattedText {
    pub runs: Vec<String>,
}

/// Abstract value of formatted text: the sequence of its runs.
pub open spec fn runs_view(t: FormattedText) -> Seq<Seq<char>> {
    t.runs@.map_values(|s: String| s@)
}

/// The concatenation of the runs from index `i` on.
pub open spec fn concat_from(rs: Seq<Seq<char>>, i: int) -> Seq<char>
    decreases rs.len() - i,
{
    if i < 0 || i >= rs.len() {
        Seq::empty()
    } else {
        rs[i] + concat_from(rs, i + 1)
    }
}

/// The plain content of formatted text: all runs concatenated.
pub open spec fn concat_runs(rs: Seq<Seq<char>>) -> Seq<char> {
    concat_from(rs, 0)
}

/// Concatenates the text runs into the plain content.
pub fn plain_text(t: &FormattedText) -> (r: String)
    ensures
        r@ == concat_runs(runs_view(*t)),
{
    let ghost rs: Seq<Seq<char>> = runs_view(*t);
    let mut s = String::new();
    let n: usize = t.runs.len();
    let mut i: usize = 0;
    while i < n
        invariant
            n == t.runs.len(),
            rs == runs_view(*t),
            0 <= i <= n,
            s@ + concat_from(rs, i as int) == concat_runs(rs),
        decreases n - i,
    {
        s.append(t.runs[i].as_str());
        proof {
            assert((s@ + concat_from(rs, i + 1 as int)) =~= concat_runs(rs));
        }
        i = i + 1;
    }
    proof {
        assert(s@ =~= concat_runs(rs));
    }
    s
}

/// Raw message content, as a closed set of shapes. `Other` is the explicit
/// default-discard arm for every content kind outside the core's scope.
#[derive(Debug)]
pub enum RawMessageContent {
    Text { text: FormattedText },
    Document { caption: FormattedText },
    Audio { caption: FormattedText },
    Video { caption: FormattedText },
    Animation { caption: FormattedText },
    Photo { caption: FormattedText, image: FileInfo },
    Other,
}

/// What content extraction yields for a message with content `c` and message
/// id `post_id`: the plain text and, for an image, the file to download; or
/// nothing for an unrecognized kind.
pub open spec fn parse_spec(c: RawMessageContent, post_id: int) -> Option<
    (Seq<char>, Option<FileView>),
> {
    match c {
        RawMessageContent::Text { text } => Option::Some(
            (concat_runs(runs_view(text)), Option::None),
        ),
        RawMessageContent::Document { caption } => Option::Some(
            (concat_runs(runs_view(caption)), Option::None),
        ),
        RawMessageContent::Audio { caption } => Option::Some(
            (concat_runs(runs_view(caption)), Option::None),
        ),
        RawMessageContent::Video { caption } => Option::Some(
            (concat_runs(runs_view(caption)), Option::None),
        ),
        RawMessageContent::Animation { caption } => Option::Some(
            (concat_runs(runs_view(caption)), Option::None),
        ),
        RawMessageContent::Photo { caption, image } => Option::Some(
            (concat_runs(runs_view(caption)), Option::Some(file_of(image, post_id))),
        ),
        RawMessageContent::Other => Option::None,
    }
}

/// Extracts plain content and the optional embedded file from raw message
/// content; returns nothing for kinds outside the core's scope.
pub fn parse_message_content(content: &RawMessageContent, post_id: i64) -> (r: Option<
    (String, Option<File>),
>)
    ensures
        (r is Some) == (parse_spec(*content, post_id as int) is Some),
        r matches Some((text, file)) ==> {
            let (spec_text, spec_file) = parse_spec(*content, post_id as int)->Some_0;
            &&& text@ == spec_text
            &&& (file is Some) == (spec_file is Some)
            &&& (file matches Some(f) ==> spec_file == Option::Some(f@))
        },
{
    match content {
        RawMessageContent::Text { text } => Option::Some((plain_text(text), Option::None)),
        RawMessageContent::Document { caption } => Option::Some(
            (plain_text(caption), Option::None),
        ),
        RawMessageContent::Audio { caption } => Option::Some((plain_text(caption), Option::None)),
        RawMessageContent::Video { caption } => Option::Some((plain_text(caption), Option::None)),
        RawMessageContent::Animation { caption } => Option::Some(
            (plain_text(caption), Option::None),
        ),
        RawMessageContent::Photo { caption, image } => Option::Some(
            (plain_text(caption), Option::Some(new_file(image, post_id))),
        ),
        RawMessageContent::Other => Option::None,
    }
}

} // verus!
