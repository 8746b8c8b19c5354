//! The prolog of a document: what stands before its root element, and the
//! type of document that it declares there.

use vstd::prelude::*;
use crate::text::{bytes_of, starts_at, stands_at};

verus! {

/// Whether the byte is white space between the parts of a prolog.
pub open spec fn is_space(b: u8) -> bool {
    b == 32 || b == 9 || b == 10 || b == 13
}

/// Where `needle` first stands in `hay` at `from` or after it.
pub open spec fn next_at(hay: Seq<u8>, from: int, needle: Seq<u8>) -> Option<int>
    decreases hay.len() - from,
{
    if from < 0 || from + needle.len() > hay.len() {
        None
    } else if stands_at(hay, from, needle) {
        Some(from)
    } else if from >= hay.len() {
        None
    } else {
        next_at(hay, from + 1, needle)
    }
}

/// What is found is found at `from` or after it, and within `hay`.
pub proof fn lemma_next_at_bounds(hay: Seq<u8>, from: int, needle: Seq<u8>)
    ensures
        next_at(hay, from, needle) matches Some(at) ==> from <= at && at + needle.len()
            <= hay.len(),
    decreases hay.len() - from,
{
    if !(from < 0 || from + needle.len() > hay.len()) && !stands_at(hay, from, needle) && from
        < hay.len() {
        lemma_next_at_bounds(hay, from + 1, needle);
    }
}

/// Where the declaration of the document type stands in the prolog that
/// begins at `from`, if the prolog has one. White space, comments and
/// processing instructions, the declaration of the markup's version among
/// them, may stand before it; anything else ends the prolog.
pub open spec fn doctype_from(b: Seq<u8>, from: int) -> Option<int>
    decreases b.len() - from,
{
    if from < 0 || from >= b.len() {
        None
    } else if is_space(b[from]) {
        doctype_from(b, from + 1)
    } else if stands_at(b, from, bytes_of("<!--"@)) {
        match next_at(b, from + 4, bytes_of("-->"@)) {
            Some(end) => {
                proof {
                    lemma_marks();
                    lemma_next_at_bounds(b, from + 4, bytes_of("-->"@));
                }
                doctype_from(b, end + 3)
            },
            None => None,
        }
    } else if stands_at(b, from, bytes_of("<!DOCTYPE"@)) {
        Some(from)
    } else if stands_at(b, from, bytes_of("<?"@)) {
        match next_at(b, from + 2, bytes_of("?>"@)) {
            Some(end) => {
                proof {
                    lemma_marks();
                    lemma_next_at_bounds(b, from + 2, bytes_of("?>"@));
                }
                doctype_from(b, end + 2)
            },
            None => None,
        }
    } else {
        None
    }
}

/// Where the prolog of a document begins: after the mark of the byte order,
/// if the document has one.
pub open spec fn prolog_start(b: Seq<u8>) -> int {
    if stands_at(b, 0, seq![0xefu8, 0xbbu8, 0xbfu8]) {
        3
    } else {
        0
    }
}

/// The type of document that a font configuration declares, with the `>`
/// that ends the declaration.
pub open spec fn doctype_tail() -> Seq<char> {
    " fontconfig SYSTEM \"urn:fontconfig:fonts.dtd\">"@
}

/// Whether the document declares a type other than that of font
/// configurations: whether its prolog holds a declaration in which anything
/// else stands between `<!DOCTYPE` and the next `>`.
pub open spec fn declares_other_type(text: Seq<char>) -> bool {
    let b = bytes_of(text);
    match doctype_from(b, prolog_start(b)) {
        Some(at) => !stands_at(b, at + 9, bytes_of(doctype_tail())),
        None => false,
    }
}

/// How long the marks of the prolog are.
pub proof fn lemma_marks()
    ensures
        bytes_of("<!--"@).len() == 4,
        bytes_of("-->"@).len() == 3,
        bytes_of("<?"@).len() == 2,
        bytes_of("?>"@).len() == 2,
        bytes_of("<!DOCTYPE"@).len() == 9,
{
    reveal_strlit("<!--");
    reveal_strlit("-->");
    reveal_strlit("<?");
    reveal_strlit("?>");
    reveal_strlit("<!DOCTYPE");
    crate::text::lemma_ascii_bytes("<!--"@);
    crate::text::lemma_ascii_bytes("-->"@);
    crate::text::lemma_ascii_bytes("<?"@);
    crate::text::lemma_ascii_bytes("?>"@);
    crate::text::lemma_ascii_bytes("<!DOCTYPE"@);
}

/// Finds where `needle` first stands in `hay` at `from` or after it.
pub fn find_from(hay: &[u8], from: usize, needle: &[u8]) -> (r: Option<usize>)
    ensures
        match r {
            Some(at) => next_at(hay@, from as int, needle@) == Some(at as int),
            None => next_at(hay@, from as int, needle@) is None,
        },
{
    let h = hay.len();
    let n = needle.len();
    if from > h || n > h - from {
        return None;
    }
    if n == 0 {
        assert(hay@.subrange(from as int, from as int) =~= needle@);
        return Some(from);
    }
    let mut at: usize = from;
    while n <= h - at
        invariant
            h == hay@.len(),
            n == needle@.len(),
            n > 0,
            from <= at <= h,
            next_at(hay@, at as int, needle@) == next_at(hay@, from as int, needle@),
        decreases h - at,
    {
        if starts_at(hay, at, needle) {
            return Some(at);
        }
        at += 1;
    }
    None
}

/// Finds where the declaration of the document type stands in the prolog.
fn find_doctype(b: &[u8]) -> (r: Option<usize>)
    ensures
        match r {
            Some(at) => doctype_from(b@, prolog_start(b@)) == Some(at as int) && at + 9 <= b@.len(),
            None => doctype_from(b@, prolog_start(b@)) is None,
        },
{
    let h = b.len();
    let mark: [u8; 3] = [0xef, 0xbb, 0xbf];
    assert(mark@ =~= seq![0xefu8, 0xbbu8, 0xbfu8]);
    let mut at: usize = if starts_at(b, 0, mark.as_slice()) {
        3
    } else {
        0
    };
    while at < h
        invariant
            h == b@.len(),
            at <= h,
            doctype_from(b@, at as int) == doctype_from(b@, prolog_start(b@)),
        decreases h - at,
    {
        proof {
            lemma_marks();
        }
        let c = b[at];
        if c == 32 || c == 9 || c == 10 || c == 13 {
            at += 1;
        } else if starts_at(b, at, "<!--".as_bytes()) {
            proof {
                lemma_next_at_bounds(b@, at + 4, bytes_of("-->"@));
            }
            match find_from(b, at + 4, "-->".as_bytes()) {
                Some(end) => {
                    at = end + 3;
                },
                None => {
                    return None;
                },
            }
        } else if starts_at(b, at, "<!DOCTYPE".as_bytes()) {
            return Some(at);
        } else if starts_at(b, at, "<?".as_bytes()) {
            proof {
                lemma_next_at_bounds(b@, at + 2, bytes_of("?>"@));
            }
            match find_from(b, at + 2, "?>".as_bytes()) {
                Some(end) => {
                    at = end + 2;
                },
                None => {
                    return None;
                },
            }
        } else {
            return None;
        }
    }
    None
}

/// Whether the document declares a type other than that of font
/// configurations.
pub fn has_other_doctype(text: &str) -> (r: bool)
    ensures
        r == declares_other_type(text@),
{
    let b = text.as_bytes();
    let h = b.len();
    match find_doctype(b) {
        Some(at) => {
            let tail = " fontconfig SYSTEM \"urn:fontconfig:fonts.dtd\">";
            !starts_at(b, at + 9, tail.as_bytes())
        },
        None => false,
    }
}

} // verus!
