//! The embedded frontend: which file a path names, and what is answered for it.

use vstd::prelude::*;

use crate::handlers::{HttpReply, ReplyView};
use crate::outside::{guess_media_type, media_type, portable};
use crate::text::join;

verus! {

/// An answer to a request for a file.
#[derive(Debug)]
pub enum AssetReply {
    Found { content_type: String, data: Vec<u8> },
    Missing(HttpReply),
}

/// The embedded file behind a path under `/assets/`.
pub fn asset_path(path: &str) -> (r: String)
    ensures
        r@ == "assets/"@ + path@,
{
    join("assets/", path)
}

/// Answers with an embedded file and the content type its name suggests, or
/// with 404. Of names that do not mean the same on every operating system the
/// content type is not said.
pub fn serve_embedded(path: &str, file: Option<Vec<u8>>) -> (r: AssetReply)
    ensures
        match file {
            Some(data) => r matches AssetReply::Found { content_type, data: d } && d == data && (
            portable(path@) ==> content_type@ == media_type(path@)),
            None => r matches AssetReply::Missing(reply) && reply@ == (ReplyView::Text {
                status: 404,
                text: "not found"@,
            }),
        },
{
    match file {
        Some(data) => AssetReply::Found { content_type: guess_media_type(path), data },
        None => AssetReply::Missing(
            HttpReply::Text { status: 404, text: "not found".to_owned() },
        ),
    }
}

} // verus!
