//! The block record: a named, inclusive range of code points, with the
//! identifier and the constant definition derived from it.

use vstd::prelude::*;

use crate::hex::hex_of;
use crate::hex::render_hex;
use crate::text::dash_spaces;
use crate::text::dashed;
use crate::text::lower_of;
use crate::text::lowercase;

verus! {

/// One named Unicode block: its name as it stood in the source text, and its
/// inclusive code-point range.
#[derive(Debug)]
pub struct UnicodeBlock {
    pub name: String,
    pub range: (u32, u32),
}

/// The mathematical value of a block record.
pub ghost struct BlockData {
    pub name: Seq<char>,
    pub start: u32,
    pub end: u32,
}

impl View for UnicodeBlock {
    type V = BlockData;

    open spec fn view(&self) -> BlockData {
        BlockData { name: self.name@, start: self.range.0, end: self.range.1 }
    }
}

/// The identifier derived from a block name: a fixed prefix, then the name
/// with spaces turned into hyphens and the whole lowercased.
pub open spec fn symbol_of(name: Seq<char>) -> Seq<char> {
    "unicode-block-"@ + lower_of(dashed(name))
}

/// The constant definition rendered for one block: its identifier bound to
/// the pair of the range's bounds as lowercase hexadecimal literals.
pub open spec fn elisp_of(b: BlockData) -> Seq<char> {
    "(defconst "@ + symbol_of(b.name) + " '(#x"@ + hex_of(b.start as nat) + " . #x"@ + hex_of(
        b.end as nat,
    ) + "))"@
}

impl UnicodeBlock {
    /// The identifier naming this block's constant in the generated output.
    pub fn to_symbol(&self) -> (r: String)
        ensures
            r@ == symbol_of(self@.name),
    {
        let d = dash_spaces(self.name.as_str());
        let low = lowercase(d.as_str());
        let mut out = String::from_str("unicode-block-");
        out.append(low.as_str());
        out
    }

    /// The constant definition for this block, one statement on one line.
    pub fn to_elisp(&self) -> (r: String)
        ensures
            r@ == elisp_of(self@),
    {
        let mut out = String::from_str("(defconst ");
        let sym = self.to_symbol();
        out.append(sym.as_str());
        out.append(" '(#x");
        let h1 = render_hex(self.range.0);
        out.append(h1.as_str());
        out.append(" . #x");
        let h2 = render_hex(self.range.1);
        out.append(h2.as_str());
        out.append("))");
        proof {
            assert(out@ =~= elisp_of(self@));
        }
        out
    }
}

/// Law: the derived identifier is a pure function of the record's name, so
/// deriving it again from the same name always gives the same identifier.
pub proof fn lemma_symbol_pure(a: BlockData, b: BlockData)
    requires
        a.name == b.name,
    ensures
        symbol_of(a.name) == symbol_of(b.name),
{
}

} // verus!
