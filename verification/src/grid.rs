//! Decoding of the tile-grid payload.
//!
//! The grid layer's payload is comma-separated decimal cell values, with
//! arbitrary whitespace and newlines in between and an optional single
//! trailing comma. Each cell is a one-byte tile index, 0 meaning empty. The
//! token count must equal the declared `width * height`; a mismatch is a
//! fatal value error, never a truncated or padded grid.

use vstd::prelude::*;
use crate::digits::{digits_value, is_digits, parse_unsigned, spec_unsigned_body};
use crate::path::{spec_split, split_bytes};
use crate::property::ParseError;
use crate::text::{spec_strip_spaces, strip_spaces};

verus! {

/// The `,` byte.
pub const COMMA: u8 = 44;

/// The payload with whitespace removed and one trailing comma, if any,
/// dropped.
pub open spec fn spec_grid_normal(payload: Seq<u8>) -> Seq<u8> {
    let t = spec_strip_spaces(payload);
    if t.len() > 0 && t.last() == COMMA {
        t.drop_last()
    } else {
        t
    }
}

/// The cell tokens of the payload.
pub open spec fn spec_grid_tokens(payload: Seq<u8>) -> Seq<Seq<u8>> {
    spec_split(spec_grid_normal(payload), COMMA)
}

/// Whether one token is a well-formed cell value.
pub open spec fn spec_cell_valid(tok: Seq<u8>) -> bool {
    is_digits(spec_unsigned_body(tok)) && digits_value(spec_unsigned_body(tok)) <= u8::MAX
}

/// The value of one well-formed cell token.
pub open spec fn spec_cell_value(tok: Seq<u8>) -> u8 {
    digits_value(spec_unsigned_body(tok)) as u8
}

/// Whether the payload is a well-formed grid of the declared size: every
/// token a cell value, and exactly `width * height` of them.
pub open spec fn spec_grid_valid(payload: Seq<u8>, width: nat, height: nat) -> bool {
    let toks = spec_grid_tokens(payload);
    &&& toks.len() == width * height
    &&& forall|i: int| 0 <= i < toks.len() ==> spec_cell_valid(#[trigger] toks[i])
}

/// The decoded cells of a well-formed payload, in payload order.
pub open spec fn spec_grid_cells(payload: Seq<u8>) -> Seq<u8> {
    spec_grid_tokens(payload).map_values(|t: Seq<u8>| spec_cell_value(t))
}

/// Decodes the grid payload into its cells, checking every token and the
/// declared size. Fails with a value error on any malformed token and on a
/// token count that differs from `width * height`.
pub fn decode_grid(payload: &[u8], width: usize, height: usize) -> (r: Result<Vec<u8>, ParseError>)
    ensures
        r matches Ok(cells) ==> spec_grid_valid(payload@, width as nat, height as nat) && cells@
            == spec_grid_cells(payload@),
        r is Err ==> !spec_grid_valid(payload@, width as nat, height as nat) && r == Err::<
            Vec<u8>,
            ParseError,
        >(ParseError::ValueParseError),
{
    let mut stripped = strip_spaces(payload);
    if stripped.len() > 0 && stripped[stripped.len() - 1] == COMMA {
        stripped.pop();
    }
    proof {
        assert(stripped@ =~= spec_grid_normal(payload@));
    }
    let tokens = split_bytes(stripped.as_slice(), COMMA);
    let ghost toks = spec_grid_tokens(payload@);
    proof {
        assert(tokens.deep_view() == toks);
        assert(tokens.deep_view().len() == tokens@.len());
    }
    let mut cells: Vec<u8> = Vec::new();
    let mut i: usize = 0;
    while i < tokens.len()
        invariant
            0 <= i <= tokens@.len(),
            toks == tokens.deep_view(),
            toks == spec_grid_tokens(payload@),
            toks.len() == tokens@.len(),
            forall|j: int| 0 <= j < i ==> spec_cell_valid(#[trigger] toks[j]),
            cells@ == toks.take(i as int).map_values(|t: Seq<u8>| spec_cell_value(t)),
        decreases tokens@.len() - i,
    {
        proof {
            assert(toks[i as int] == tokens@[i as int].deep_view());
            assert(tokens@[i as int].deep_view() =~= tokens@[i as int]@);
        }
        match parse_unsigned(tokens[i].as_slice(), u8::MAX as u64) {
            Some(v) => {
                cells.push(v as u8);
                proof {
                    assert(toks.take(i + 1).map_values(|t: Seq<u8>| spec_cell_value(t)) =~= toks.take(
                        i as int,
                    ).map_values(|t: Seq<u8>| spec_cell_value(t)).push(spec_cell_value(
                        toks[i as int],
                    )));
                }
            },
            None => {
                proof {
                    assert(!spec_cell_valid(toks[i as int]));
                    assert(!spec_grid_valid(payload@, width as nat, height as nat));
                }
                return Err(ParseError::ValueParseError);
            },
        }
        i = i + 1;
    }
    proof {
        assert(toks.take(toks.len() as int) =~= toks);
    }
    match width.checked_mul(height) {
        Some(expected) => {
            if cells.len() == expected {
                Ok(cells)
            } else {
                Err(ParseError::ValueParseError)
            }
        },
        None => {
            proof {
                assert(cells@.len() <= usize::MAX);
                assert(toks.len() != width * height);
            }
            Err(ParseError::ValueParseError)
        },
    }
}

} // verus!
