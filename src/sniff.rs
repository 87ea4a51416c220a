//! Telling binary content from text by its first bytes.

use vstd::prelude::*;
use vstd::slice::slice_subrange;

verus! {

/// How many leading bytes of a file are looked at.
pub const SNIFF_LIMIT: usize = 8192;

/// The media type that `infer::get` reports for `head`, if it recognises a
/// signature there.
pub uninterp spec fn detected_mime(head: Seq<u8>) -> Option<Seq<char>>;

/// Relies on `infer::get` and `infer::Type::mime_type`: the media type of the
/// signature found at the start of `head`, if any.
#[verifier::external_body]
fn sniff_mime(head: &[u8]) -> (r: Option<String>)
    ensures
        r matches Some(m) ==> detected_mime(head@) == Some(m@),
        r is None ==> detected_mime(head@) is None,
{
    infer::get(head).map(|kind| kind.mime_type().to_string())
}

pub open spec fn is_text_mime(m: Seq<char>) -> bool {
    m.len() >= 5 && m[0] == 't' && m[1] == 'e' && m[2] == 'x' && m[3] == 't' && m[4] == '/'
}

/// A recognised signature of a non-text media type makes content binary;
/// a text signature or none leaves it to whether a zero byte occurs.
pub open spec fn looks_binary(mime: Option<Seq<char>>, head: Seq<u8>) -> bool {
    ||| (mime matches Some(m) && !is_text_mime(m))
    ||| head.contains(0u8)
}

/// The part of a file's content that sniffing looks at.
pub open spec fn sniffed(content: Seq<u8>) -> Seq<u8> {
    if content.len() <= SNIFF_LIMIT {
        content
    } else {
        content.take(SNIFF_LIMIT as int)
    }
}

/// Whether content is binary, as `infer` reports it for its first bytes and
/// as the zero-byte rule says.
pub open spec fn is_binary_spec(content: Seq<u8>) -> bool {
    looks_binary(detected_mime(sniffed(content)), sniffed(content))
}

fn has_zero(head: &[u8]) -> (r: bool)
    ensures
        r == head@.contains(0u8),
{
    let mut i: usize = 0;
    while i < head.len()
        invariant
            i <= head.len(),
            forall|j: int| 0 <= j < i ==> head@[j] != 0u8,
        decreases head.len() - i,
    {
        if head[i] == 0u8 {
            assert(head@[i as int] == 0u8);
            return true;
        }
        i = i + 1;
    }
    false
}

/// Classifies `head` given the media type that signature detection gave
/// for it.
pub fn classify_head(mime: Option<&str>, head: &[u8]) -> (r: bool)
    ensures
        r == looks_binary(
            match mime {
                Some(m) => Some(m@),
                None => None,
            },
            head@,
        ),
{
    let non_text = match mime {
        Some(m) => {
            let cs = crate::path::chars_of(m);
            !(cs.len() >= 5 && cs[0] == 't' && cs[1] == 'e' && cs[2] == 'x' && cs[3] == 't'
                && cs[4] == '/')
        },
        None => false,
    };
    non_text || has_zero(head)
}

/// Whether a file with this content is binary, looking at its first
/// `SNIFF_LIMIT` bytes only.
pub fn is_binary_content(content: &[u8]) -> (r: bool)
    ensures
        r == is_binary_spec(content@),
{
    let n = if content.len() <= SNIFF_LIMIT {
        content.len()
    } else {
        SNIFF_LIMIT
    };
    let head = slice_subrange(content, 0, n);
    assert(head@ == sniffed(content@));
    let mime = sniff_mime(head);
    match mime {
        Some(m) => classify_head(Some(m.as_str()), head),
        None => classify_head(None, head),
    }
}

} // verus!
