//! Keyboard bindings of the private X11 display.
use crate::error::{Error, ErrorView, Result};
use crate::text::glue2;
use vstd::prelude::*;

verus! {

/// The keyboard map that the X server reports: a row of symbols for every
/// keycode, beginning with the lowest.
#[derive(Debug)]
pub struct Keymap {
    pub min_keycode: u8,
    pub keysyms_per_keycode: u8,
    pub keysyms: Vec<u32>,
}

/// Where a symbol first stands.
pub open spec fn place_of(keysyms: Seq<u32>, symbol: u32) -> int {
    crate::text::first_of(keysyms, symbol) as int
}

/// A row that no keycode can be given, rendered.
pub uninterp spec fn row_fault(row: usize) -> Seq<char>;

/// `u8::try_from` of a `usize`: the same number where it fits, and otherwise an
/// error whose rendering depends on the number alone; [`row_fault`] names it.
#[verifier::external_body]
fn narrow_row(row: usize) -> (narrowed: std::result::Result<u8, String>)
    ensures
        match narrowed {
            Ok(narrowed) => narrowed == row,
            Err(fault) => row > u8::MAX && fault@ == row_fault(row),
        },
{
    u8::try_from(row).map_err(|error| error.to_string())
}

/// The name of a symbol, or its number where it has no name.
pub uninterp spec fn symbol_name(symbol: u32) -> Seq<char>;

/// The `Debug` rendering of `xkeysym::Keysym`: the symbol's name, or its number
/// where it has no name. It depends on the symbol alone; [`symbol_name`] names
/// it.
#[verifier::external_body]
fn symbol_text(symbol: u32) -> (name: String)
    ensures
        name@ == symbol_name(symbol),
{
    format!("{:?}", xkeysym::Keysym::new(symbol))
}

impl Keymap {
    /// The row of a symbol that the map holds.
    pub open spec fn row(&self, symbol: u32) -> int {
        place_of(self.keysyms@, symbol) / self.keysyms_per_keycode as int
    }

    /// Whether a symbol stands in an odd column, which shift selects.
    pub open spec fn shifted(&self, symbol: u32) -> bool {
        place_of(self.keysyms@, symbol) % self.keysyms_per_keycode as int % 2 == 1
    }

    /// Whether the map binds a symbol.
    pub open spec fn binds(&self, symbol: u32) -> bool {
        place_of(self.keysyms@, symbol) < self.keysyms@.len()
    }

    /// A row of at least one symbol for every keycode, and a keycode for every
    /// row that has a number of eight bits.
    pub open spec fn readable(&self) -> bool {
        &&& self.keysyms_per_keycode > 0
        &&& forall|index: int|
            0 <= index < self.keysyms@.len() && index / self.keysyms_per_keycode as int <= u8::MAX
                ==> self.min_keycode + #[trigger] (index / self.keysyms_per_keycode as int)
                <= u8::MAX
    }

    /// The keycode of a symbol that the map binds.
    pub open spec fn code(&self, symbol: u32) -> u8 {
        (self.min_keycode + self.row(symbol)) as u8
    }

    /// Why a symbol has no keycode, when it has none.
    pub open spec fn binding_fault(&self, symbol: u32) -> Option<ErrorView> {
        if !self.binds(symbol) {
            Some(
                ErrorView::Unsupported {
                    capability: "keyboard symbol"@,
                    detail: "the X11 keymap has no binding for "@ + symbol_name(symbol),
                },
            )
        } else if self.row(symbol) > u8::MAX {
            Some(
                ErrorView::X11 {
                    operation: "resolve key"@,
                    detail: row_fault(self.row(symbol) as usize),
                },
            )
        } else {
            None
        }
    }

    /// Find the keycode of a symbol, and whether shift must be held. The first
    /// binding counts.
    pub fn keycode(&self, symbol: u32) -> (binding: Result<(u8, bool)>)
        requires
            self.readable(),
        ensures
            match binding {
                Ok((keycode, shift)) => self.binding_fault(symbol) is None && keycode
                    == self.code(symbol) && keycode == self.min_keycode + self.row(symbol) && shift
                    == self.shifted(symbol),
                Err(error) => self.binding_fault(symbol) == Some(error@),
            },
    {
        let stride: usize = self.keysyms_per_keycode as usize;
        let mut index: usize = 0;
        while index < self.keysyms.len()
            invariant
                index <= self.keysyms.len(),
                stride == self.keysyms_per_keycode,
                self.readable(),
                forall|i: int| 0 <= i < index ==> self.keysyms@[i] != symbol,
            decreases self.keysyms.len() - index,
        {
            if self.keysyms[index] == symbol {
                proof {
                    crate::text::lemma_first_of(self.keysyms@, symbol, index as int);
                }
                let row: usize = index / stride;
                assert(row == index as int / self.keysyms_per_keycode as int);
                return match narrow_row(row) {
                    Ok(row) => Ok((self.min_keycode + row, index % stride % 2 == 1)),
                    Err(detail) => Err(Error::X11 { operation: "resolve key", detail }),
                };
            }
            index = index + 1;
        }
        proof {
            crate::text::lemma_first_of(self.keysyms@, symbol, index as int);
        }
        Err(
            Error::Unsupported {
                capability: "keyboard symbol",
                detail: glue2(
                    "the X11 keymap has no binding for ",
                    symbol_text(symbol).as_str(),
                ),
            },
        )
    }
}

} // verus!
