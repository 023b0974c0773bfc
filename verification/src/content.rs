//! Content-kind selection for the static assets: the served content type is
//! inferred from the requested path's extension, with HTML as the default.

use vstd::prelude::*;

verus! {

/// The content kinds the static-asset endpoints serve.
#[derive(Clone, Copy, Debug, PartialEq, Eq, Structural)]
pub enum ContentKind {
    /// A script asset (`.js`).
    Script,
    /// A wasm binary asset (`.wasm`).
    Wasm,
    /// An HTML document, also the default for unmatched paths.
    Html,
    /// An icon asset (`.ico`).
    Icon,
}

/// `s` ends with `suffix`.
pub open spec fn spec_ends_with(s: Seq<u8>, suffix: Seq<u8>) -> bool {
    s.len() >= suffix.len() && s.skip(s.len() - suffix.len()) == suffix
}

/// The content kind chosen for a request path, read as bytes: `js` paths
/// are scripts, `wasm` paths wasm binaries, `html` paths HTML, `ico` paths
/// icons, and anything else defaults to HTML.
pub open spec fn spec_content_kind(path: Seq<u8>) -> ContentKind {
    if spec_ends_with(path, seq![0x6au8, 0x73u8]) {
        ContentKind::Script
    } else if spec_ends_with(path, seq![0x77u8, 0x61u8, 0x73u8, 0x6du8]) {
        ContentKind::Wasm
    } else if spec_ends_with(path, seq![0x68u8, 0x74u8, 0x6du8, 0x6cu8]) {
        ContentKind::Html
    } else if spec_ends_with(path, seq![0x69u8, 0x63u8, 0x6fu8]) {
        ContentKind::Icon
    } else {
        ContentKind::Html
    }
}

/// Whether `s` ends with `suffix`, byte for byte.
pub fn ends_with_bytes(s: &Vec<u8>, suffix: &Vec<u8>) -> (r: bool)
    ensures
        r == spec_ends_with(s@, suffix@),
{
    if s.len() < suffix.len() {
        return false;
    }
    let start = s.len() - suffix.len();
    let mut i: usize = 0;
    proof {
        assert(s@.len() == s.len());
    }
    while i < suffix.len()
        invariant
            s@.len() <= usize::MAX,
            s@.len() >= suffix@.len(),
            start == s@.len() - suffix@.len(),
            i <= suffix@.len(),
            forall|j: int| 0 <= j < i ==> s@[start + j] == suffix@[j],
        decreases suffix.len() - i,
    {
        if s[start + i] != suffix[i] {
            proof {
                assert(s@.skip(start as int)[i as int] == s@[start + i]);
            }
            return false;
        }
        i = i + 1;
    }
    proof {
        assert(s@.skip(start as int) =~= suffix@);
    }
    true
}

/// Choose the content kind for a request path, read as bytes.
pub fn content_kind_for_path(path: &Vec<u8>) -> (k: ContentKind)
    ensures
        k == spec_content_kind(path@),
{
    let js: Vec<u8> = vec![0x6au8, 0x73u8];
    let wasm: Vec<u8> = vec![0x77u8, 0x61u8, 0x73u8, 0x6du8];
    let html: Vec<u8> = vec![0x68u8, 0x74u8, 0x6du8, 0x6cu8];
    let ico: Vec<u8> = vec![0x69u8, 0x63u8, 0x6fu8];
    if ends_with_bytes(path, &js) {
        ContentKind::Script
    } else if ends_with_bytes(path, &wasm) {
        ContentKind::Wasm
    } else if ends_with_bytes(path, &html) {
        ContentKind::Html
    } else if ends_with_bytes(path, &ico) {
        ContentKind::Icon
    } else {
        ContentKind::Html
    }
}

} // verus!
