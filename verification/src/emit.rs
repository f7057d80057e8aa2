//! The code generator: one constant definition per block, then an aggregate
//! list naming every generated identifier, in document order.

use vstd::prelude::*;

use crate::block::elisp_of;
use crate::block::symbol_of;
use crate::block::BlockData;
use crate::block::UnicodeBlock;

verus! {

/// The identifiers of a sequence of block records, in the same order.
pub open spec fn symbols_of(rs: Seq<BlockData>) -> Seq<Seq<char>> {
    rs.map_values(|b: BlockData| symbol_of(b.name))
}

/// The body of the aggregate list: each identifier followed by a line break
/// and the indentation of the next entry.
pub open spec fn aggregate_items(syms: Seq<Seq<char>>) -> Seq<char>
    decreases syms.len(),
{
    if syms.len() == 0 {
        Seq::empty()
    } else {
        aggregate_items(syms.drop_last()) + syms.last() + "\n    "@
    }
}

/// The aggregate statement: after a blank line, one constant holding the list
/// of every generated identifier, closed with both delimiters and a final
/// line break.
pub open spec fn aggregate_of(rs: Seq<BlockData>) -> Seq<char> {
    "\n(defconst unicode-blocks\n  '("@ + aggregate_items(symbols_of(rs)) + "))\n"@
}

/// The per-block statements: one constant definition per record, each on its
/// own line, in record order.
pub open spec fn statements_of(rs: Seq<BlockData>) -> Seq<char>
    decreases rs.len(),
{
    if rs.len() == 0 {
        Seq::empty()
    } else {
        statements_of(rs.drop_last()) + elisp_of(rs.last()) + "\n"@
    }
}

/// The whole generated text: the per-block statements, then the aggregate
/// statement (a footer, if any, follows verbatim).
pub open spec fn rendered(rs: Seq<BlockData>) -> Seq<char> {
    statements_of(rs) + aggregate_of(rs)
}

/// Renders the aggregate statement for the given records.
pub fn aggregate_elisp(blocks: &Vec<UnicodeBlock>) -> (r: String)
    ensures
        r@ == aggregate_of(blocks@.map_values(|b: UnicodeBlock| b@)),
{
    let ghost rs = blocks@.map_values(|b: UnicodeBlock| b@);
    let mut out = String::from_str("\n(defconst unicode-blocks\n  '(");
    let mut i: usize = 0;
    while i < blocks.len()
        invariant
            rs == blocks@.map_values(|b: UnicodeBlock| b@),
            0 <= i <= blocks@.len(),
            out@ == "\n(defconst unicode-blocks\n  '("@ + aggregate_items(
                symbols_of(rs.take(i as int)),
            ),
        decreases blocks@.len() - i,
    {
        let sym = blocks[i].to_symbol();
        out.append(sym.as_str());
        out.append("\n    ");
        proof {
            assert(symbols_of(rs.take(i + 1)).drop_last() =~= symbols_of(rs.take(i as int)));
            assert(symbols_of(rs.take(i + 1)).last() == symbol_of(rs[i as int].name));
            assert(out@ =~= "\n(defconst unicode-blocks\n  '("@ + aggregate_items(
                symbols_of(rs.take(i + 1)),
            ));
        }
        i = i + 1;
    }
    out.append("))\n");
    proof {
        assert(rs.take(rs.len() as int) =~= rs);
        assert(out@ =~= aggregate_of(rs));
    }
    out
}

/// Renders the whole generated text for the given records: every per-block
/// statement in order, then the aggregate statement.
///
/// This is a direct, order-preserving transform: identifiers are not
/// deduplicated, so two names that normalize to the same identifier yield
/// two definitions of the same constant, the later one winning.
pub fn render(blocks: &Vec<UnicodeBlock>) -> (r: String)
    ensures
        r@ == rendered(blocks@.map_values(|b: UnicodeBlock| b@)),
{
    let ghost rs = blocks@.map_values(|b: UnicodeBlock| b@);
    let mut out = String::new();
    let mut i: usize = 0;
    while i < blocks.len()
        invariant
            rs == blocks@.map_values(|b: UnicodeBlock| b@),
            0 <= i <= blocks@.len(),
            out@ == statements_of(rs.take(i as int)),
        decreases blocks@.len() - i,
    {
        let stmt = blocks[i].to_elisp();
        out.append(stmt.as_str());
        out.append("\n");
        proof {
            assert(rs.take(i + 1).drop_last() =~= rs.take(i as int));
            assert(rs.take(i + 1).last() == rs[i as int]);
            assert(out@ =~= statements_of(rs.take(i + 1)));
        }
        i = i + 1;
    }
    let agg = aggregate_elisp(blocks);
    out.append(agg.as_str());
    proof {
        assert(rs.take(rs.len() as int) =~= rs);
    }
    out
}

/// Renders the whole output document: the generated text, then the footer
/// appended verbatim.
pub fn render_with_footer(blocks: &Vec<UnicodeBlock>, footer: &str) -> (r: String)
    ensures
        r@ == rendered(blocks@.map_values(|b: UnicodeBlock| b@)) + footer@,
{
    let mut out = render(blocks);
    out.append(footer);
    out
}

/// Law: the aggregate list preserves order. Its sequence of identifiers has
/// one entry per record, and its `i`-th entry is exactly the identifier that
/// stands in the `i`-th per-block statement (the characters after the
/// statement's opening keyword).
pub proof fn lemma_order_preserved(rs: Seq<BlockData>, i: int)
    requires
        0 <= i < rs.len(),
    ensures
        symbols_of(rs).len() == rs.len(),
        symbols_of(rs)[i] == symbol_of(rs[i].name),
        elisp_of(rs[i]).subrange(
            "(defconst "@.len() as int,
            "(defconst "@.len() + symbols_of(rs)[i].len() as int,
        ) == symbols_of(rs)[i],
{
    let sym = symbol_of(rs[i].name);
    let pre = "(defconst "@;
    assert(elisp_of(rs[i]).subrange(pre.len() as int, pre.len() + sym.len() as int) =~= sym);
}

} // verus!
