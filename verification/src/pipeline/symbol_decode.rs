//! Decoding QR symbols out of a grayscale image with the quirc locator and
//! decoder: which located symbols yield a payload, and what text it is.

use vstd::prelude::*;
use vstd::string::*;

verus! {

/// Cells of a symbol as quirc extracts them: one bit per cell, row by row.
pub const CELL_BITMAP_BYTES: usize = 3917;

/// One symbol that the locator found: its corners from the top left,
/// clockwise, in pixel coordinates; its width in cells; and its cells, one
/// bit each, row by row.
pub struct LocatedSymbol {
    pub corners: [(i32, i32); 4],
    pub size: i32,
    pub cells: Vec<u8>,
}

/// A located symbol as plain values: corners, width in cells, cell bitmap.
pub open spec fn located_view(symbol: LocatedSymbol) -> (Seq<(i32, i32)>, i32, Seq<u8>) {
    (symbol.corners@, symbol.size, symbol.cells@)
}

/// The outcome of one extraction as plain values.
pub open spec fn extraction_view(found: Option<LocatedSymbol>) -> Option<(Seq<(i32, i32)>, i32, Seq<u8>)> {
    match found {
        Some(symbol) => Some(located_view(symbol)),
        None => None,
    }
}

/// A decoded symbol: its payload text and the corners it was found at.
pub struct DecodedSymbol {
    pub payload: String,
    pub corners: [(i32, i32); 4],
}

/// A decoded symbol as plain values: payload text and corners.
pub open spec fn decoded_view(symbol: DecodedSymbol) -> (Seq<char>, Seq<(i32, i32)>) {
    (symbol.payload@, symbol.corners@)
}

/// What `quircs::Quirc::identify` yields for a grayscale image of the given
/// size: for each grid it found, in order, the symbol extracted from it, or
/// `None` where extraction failed.
pub uninterp spec fn quirc_identified(gray: Seq<u8>, width: usize, height: usize) -> Seq<
    Option<(Seq<(i32, i32)>, i32, Seq<u8>)>,
>;

/// The payload bytes that `quircs::Code::decode` gives for a symbol of the
/// given width in cells and cell bitmap, or `None` where decoding fails.
pub uninterp spec fn quirc_decoded(size: i32, cells: Seq<u8>) -> Option<Seq<u8>>;

/// The text that `String::from_utf8_lossy` makes of some bytes.
pub uninterp spec fn utf8_lossy(bytes: Seq<u8>) -> Seq<char>;

/// `s` without its trailing NUL characters.
pub open spec fn without_trailing_nuls(s: Seq<char>) -> Seq<char>
    decreases s.len(),
{
    if s.len() > 0 && s.last() == '\0' {
        without_trailing_nuls(s.drop_last())
    } else {
        s
    }
}

/// Whether an extracted symbol can be handed to the decoder: its bitmap is
/// quirc's fixed-size array and its width in cells is that of a version 1
/// to 40 symbol, 21 to 177.
pub open spec fn decodable(found: Option<LocatedSymbol>) -> bool {
    found matches Some(symbol) ==> symbol.cells@.len() == CELL_BITMAP_BYTES && 21 <= symbol.size
        <= 177
}

/// Whether an image of `width` by `height` pixels is small enough for the
/// quirc locator, which indexes pixels with 32-bit signed arithmetic.
pub open spec fn locatable_size(width: usize, height: usize) -> bool {
    width <= i32::MAX && height <= i32::MAX && width * height <= i32::MAX
}

/// Runs the quirc locator (`quircs::Quirc::identify`) on a grayscale image
/// and hands out every extracted symbol as plain values. `identify` asserts
/// that the image holds exactly `width * height` bytes and indexes pixels
/// as `i32`, so the image must fit that. What it finds is named, not
/// stated; each extracted bitmap is quirc's fixed-size array, and a grid is
/// kept only once its version, 1 to 40, is checked, so its width in cells
/// is 21 to 177.
#[verifier::external_body]
fn quirc_identify(gray: &[u8], width: usize, height: usize) -> (found: Vec<Option<LocatedSymbol>>)
    requires
        gray@.len() == width * height,
        locatable_size(width, height),
    ensures
        found@.map_values(|f: Option<LocatedSymbol>| extraction_view(f)) == quirc_identified(
            gray@,
            width,
            height,
        ),
        forall|i: int| 0 <= i < found@.len() ==> decodable(#[trigger] found@[i]),
{
    let mut decoder = quircs::Quirc::default();
    decoder.identify(width, height, gray).map(|extracted| match extracted {
        Ok(code) => Some(LocatedSymbol {
            corners: code.corners.map(|p| (p.x, p.y)),
            size: code.size,
            cells: code.cell_bitmap.to_vec(),
        }),
        Err(_) => None,
    }).collect()
}

/// Runs the quirc decoder (`quircs::Code::decode`) on a symbol given by its
/// width in cells and its cell bitmap, which is all that decoding reads.
/// The payload bytes are named, not stated; a decoding error gives `None`.
#[verifier::external_body]
fn quirc_decode(size: i32, cells: &[u8]) -> (payload: Option<Vec<u8>>)
    requires
        cells@.len() == CELL_BITMAP_BYTES,
        size >= 17,
    ensures
        match payload {
            Some(bytes) => quirc_decoded(size, cells@) == Some(bytes@),
            None => quirc_decoded(size, cells@) is None,
        },
{
    let mut code = quircs::Code::default();
    code.size = size;
    code.cell_bitmap.copy_from_slice(cells);
    match code.decode() {
        Ok(data) => Some(data.payload),
        Err(_) => None,
    }
}

/// Calls `String::from_utf8_lossy`, which keeps valid UTF-8 and puts
/// U+FFFD in place of each invalid sequence; the text is named, not stated.
#[verifier::external_body]
fn lossy_utf8(bytes: &[u8]) -> (text: String)
    ensures
        text@ == utf8_lossy(bytes@),
{
    String::from_utf8_lossy(bytes).into_owned()
}

/// `s` without its trailing NUL characters.
fn trim_trailing_nuls(s: &str) -> (t: &str)
    ensures
        t@ == without_trailing_nuls(s@),
{
    let mut k: usize = s.unicode_len();
    proof {
        assert(s@.subrange(0, k as int) =~= s@);
    }
    while k > 0 && s.get_char(k - 1) == '\0'
        invariant
            k <= s@.len(),
            without_trailing_nuls(s@.subrange(0, k as int)) == without_trailing_nuls(s@),
        decreases k,
    {
        proof {
            assert(s@.subrange(0, k as int).drop_last() =~= s@.subrange(0, k - 1));
        }
        k -= 1;
    }
    s.substring_char(0, k)
}

/// The payload text that decoded text carries: the text without trailing
/// NULs, or `None` when nothing is left.
pub open spec fn payload_text(text: Seq<char>) -> Option<Seq<char>> {
    let t = without_trailing_nuls(text);
    if t.len() > 0 {
        Some(t)
    } else {
        None
    }
}

/// The payload text of decoded text: trailing NULs removed; `None` when
/// nothing is left.
pub fn payload_from_text(text: &str) -> (payload: Option<String>)
    ensures
        match payload {
            Some(p) => payload_text(text@) == Some(p@),
            None => payload_text(text@) is None,
        },
{
    let trimmed = trim_trailing_nuls(text);
    if trimmed.is_empty() {
        None
    } else {
        Some(trimmed.to_owned())
    }
}

/// The payload text of a located symbol, where it decodes to one.
pub open spec fn symbol_payload(size: i32, cells: Seq<u8>) -> Option<Seq<char>> {
    match quirc_decoded(size, cells) {
        Some(bytes) => payload_text(utf8_lossy(bytes)),
        None => None,
    }
}

/// The symbols, in order, that decode to a payload, out of what the
/// locator extracted.
pub open spec fn decoded_symbols(found: Seq<Option<(Seq<(i32, i32)>, i32, Seq<u8>)>>) -> Seq<
    (Seq<char>, Seq<(i32, i32)>),
>
    decreases found.len(),
{
    if found.len() == 0 {
        Seq::empty()
    } else {
        let before = decoded_symbols(found.drop_last());
        match found.last() {
            Some(symbol) => match symbol_payload(symbol.1, symbol.2) {
                Some(text) => before.push((text, symbol.0)),
                None => before,
            },
            None => before,
        }
    }
}

/// Decode one located symbol into its payload text and corners.
fn decode_symbol(symbol: &LocatedSymbol) -> (decoded: Option<DecodedSymbol>)
    requires
        decodable(Some(*symbol)),
    ensures
        match decoded {
            Some(d) => symbol_payload(symbol.size, symbol.cells@) == Some(d.payload@) && d.corners@
                == symbol.corners@,
            None => symbol_payload(symbol.size, symbol.cells@) is None,
        },
{
    match quirc_decode(symbol.size, symbol.cells.as_slice()) {
        Some(bytes) => {
            let text = lossy_utf8(bytes.as_slice());
            match payload_from_text(text.as_str()) {
                Some(payload) => Some(DecodedSymbol { payload, corners: symbol.corners }),
                None => None,
            }
        },
        None => None,
    }
}

/// Decode the symbols the locator extracted, keeping those that yield a
/// non-empty payload, in order.
pub fn decode_located(found: &[Option<LocatedSymbol>]) -> (decoded: Vec<DecodedSymbol>)
    requires
        forall|i: int| 0 <= i < found@.len() ==> decodable(#[trigger] found@[i]),
    ensures
        decoded@.map_values(|d: DecodedSymbol| decoded_view(d)) == decoded_symbols(
            found@.map_values(|f: Option<LocatedSymbol>| extraction_view(f)),
        ),
{
    let ghost all = found@.map_values(|f: Option<LocatedSymbol>| extraction_view(f));
    let mut decoded: Vec<DecodedSymbol> = Vec::new();
    let mut i: usize = 0;
    proof {
        assert(all.take(0) =~= Seq::<Option<(Seq<(i32, i32)>, i32, Seq<u8>)>>::empty());
        assert(decoded@.map_values(|d: DecodedSymbol| decoded_view(d)) =~= Seq::empty());
    }
    while i < found.len()
        invariant
            i <= found@.len(),
            all == found@.map_values(|f: Option<LocatedSymbol>| extraction_view(f)),
            forall|k: int| 0 <= k < found@.len() ==> decodable(#[trigger] found@[k]),
            decoded@.map_values(|d: DecodedSymbol| decoded_view(d)) == decoded_symbols(
                all.take(i as int),
            ),
        decreases found@.len() - i,
    {
        proof {
            assert(all.take(i + 1).drop_last() =~= all.take(i as int));
            assert(all[i as int] == extraction_view(found@[i as int]));
            assert(decodable(found@[i as int]));
        }
        match &found[i] {
            Some(symbol) => {
                let ghost before = decoded@;
                match decode_symbol(symbol) {
                    Some(d) => {
                        decoded.push(d);
                        proof {
                            assert(decoded@.map_values(|d: DecodedSymbol| decoded_view(d))
                                =~= before.map_values(|d: DecodedSymbol| decoded_view(d)).push(
                                decoded_view(d),
                            ));
                        }
                    },
                    None => {},
                }
            },
            None => {},
        }
        i += 1;
    }
    proof {
        assert(all.take(found@.len() as int) =~= all);
    }
    decoded
}

/// Locate and decode every QR symbol in a grayscale image of `width` by
/// `height` pixels, keeping those that yield a non-empty payload, in the
/// order the locator found them.
pub fn decode_from_grayscale(gray: &[u8], width: usize, height: usize) -> (decoded: Vec<
    DecodedSymbol,
>)
    requires
        gray@.len() == width * height,
        locatable_size(width, height),
    ensures
        decoded@.map_values(|d: DecodedSymbol| decoded_view(d)) == decoded_symbols(
            quirc_identified(gray@, width, height),
        ),
{
    let found = quirc_identify(gray, width, height);
    decode_located(found.as_slice())
}

} // verus!
