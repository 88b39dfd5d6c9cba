//! Deciding whether a fetched payload is text worth indexing, and turning it
//! into normalized markdown.
use spider_utils::spider_transformations::transformation::content as tc;
use vstd::prelude::*;

verus! {

/// Payloads larger than this many bytes are never transformed (1 MiB).
pub const MAX_PAYLOAD_BYTES: usize = 1048576;

/// Encoding hint handed to the transformer with every page body.
pub const FALLBACK_ENCODING: &'static str = "SHIFT_JIS";

/// How a fetched payload is treated by the pipeline.
#[derive(Debug, Clone, Copy, PartialEq, Eq, Structural)]
pub enum PayloadKind {
    Text,
    Binary,
    Empty,
}

/// The readable content of a page, or the fact that it was binary.
#[derive(Debug)]
pub enum Content {
    Text(String),
    Binary,
}

/// What the binary sniffer says of a byte sequence.
pub uninterp spec fn binary_signature_of(bytes: Seq<u8>) -> bool;

/// Markdown produced from a page body, its address and an encoding hint.
pub uninterp spec fn markdown_of(body: Seq<u8>, address: Seq<char>, encoding: Seq<char>) -> Seq<char>;

/// Relies on auto_encoder::is_binary_file (re-exported by spider): a magic-number check on the
/// leading bytes, which answers false on an empty slice.
#[verifier::external_body]
fn sniff_binary(bytes: &[u8]) -> (r: bool)
    ensures
        r == binary_signature_of(bytes@),
        bytes@.len() == 0 ==> !r,
{
    spider::auto_encoder::is_binary_file(bytes)
}

/// Relies on spider_transformations' transform_content_input: markdown with
/// readability, main-content extraction and image and svg filtering; the
/// result depends on the body, the address and the encoding hint alone. The
/// address is handed over as parsed by url::Url::parse, or not at all.
#[verifier::external_body]
pub(crate) fn transform_body(body: &[u8], address: &str, encoding: &str) -> (r: String)
    ensures
        r@ == markdown_of(body@, address@, encoding@),
{
    let parsed = url::Url::parse(address).ok();
    let input = tc::TransformInput {
        url: parsed.as_ref(), content: body, screenshot_bytes: None,
        encoding: Some(encoding), selector_config: None, ignore_tags: None,
    };
    let config = tc::TransformConfig {
        return_format: tc::ReturnFormat::Markdown, readability: true, filter_images: true,
        clean_html: true, filter_svg: true, main_content: true,
    };
    tc::transform_content_input(input, &config)
}

/// The class of a payload: absent is empty; oversized or sniffed as binary is
/// binary; anything else is text.
pub open spec fn classification(payload: Option<Seq<u8>>) -> PayloadKind {
    match payload {
        None => PayloadKind::Empty,
        Some(b) => if b.len() > MAX_PAYLOAD_BYTES || binary_signature_of(b) {
            PayloadKind::Binary
        } else {
            PayloadKind::Text
        },
    }
}

/// The view of an optional payload.
pub open spec fn payload_view(payload: Option<&[u8]>) -> Option<Seq<u8>> {
    match payload {
        None => None,
        Some(b) => Some(b@),
    }
}

/// Classifies a fetched payload.
pub fn classify(payload: Option<&[u8]>) -> (r: PayloadKind)
    ensures
        r == classification(payload_view(payload)),
{
    match payload {
        None => PayloadKind::Empty,
        Some(b) => {
            if b.len() > MAX_PAYLOAD_BYTES || sniff_binary(b) {
                PayloadKind::Binary
            } else {
                PayloadKind::Text
            }
        },
    }
}

/// The content that a text payload of `address` reads as.
pub open spec fn page_markdown(body: Seq<u8>, address: Seq<char>) -> Seq<char> {
    markdown_of(body, address, FALLBACK_ENCODING@)
}

/// Reads a payload: `None` when absent, `Binary` when it is not text,
/// otherwise the transformed markdown.
pub fn read_content(payload: Option<&[u8]>, address: &str) -> (r: Option<Content>)
    ensures
        match classification(payload_view(payload)) {
            PayloadKind::Empty => r is None,
            PayloadKind::Binary => r == Some(Content::Binary),
            PayloadKind::Text => match r {
                Some(Content::Text(t)) => t@ == page_markdown(payload_view(payload).unwrap(), address@),
                _ => false,
            },
        },
{
    match classify(payload) {
        PayloadKind::Empty => None,
        PayloadKind::Binary => Some(Content::Binary),
        PayloadKind::Text => {
            let b = payload.unwrap();
            Some(Content::Text(transform_body(b, address, FALLBACK_ENCODING)))
        },
    }
}

} // verus!
