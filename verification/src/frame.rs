//! Call frames and per-block label tables.
//!
//! A frame owns the variables of one call's scope, a return-address stack
//! for gosub/return, the current-instruction cursor, and the label table of
//! the block it executes, computed once at frame creation. Labels are not
//! visible across frames.

use vstd::prelude::*;
use crate::ast::Block;
use crate::ast::Statement;
use crate::namemap::NameMap;
use crate::values::VariableValue;

verus! {

/// Which block a frame executes: the program's main block or one of its
/// procedure implementations.
#[derive(Debug, Clone, Copy, PartialEq, Eq, Structural)]
pub enum BlockId {
    Main,
    Procedure(usize),
}

/// One call's scope and control-flow bookkeeping.
pub struct StackFrame {
    /// The scope's variables, parameters included.
    pub values: NameMap<VariableValue>,
    /// Program-counter values to resume at on return.
    pub gosub_stack: Vec<usize>,
    /// The current-instruction cursor.
    pub cur_ptr: usize,
    /// The block's label table, computed once at frame creation.
    pub label_table: NameMap<usize>,
    /// The block the frame executes.
    pub block_id: BlockId,
}

/// Whether a statement is the given label.
pub open spec fn is_label(s: Statement, l: Seq<char>) -> bool {
    match s {
        Statement::Label(x) => x@ == l,
        _ => false,
    }
}

/// The label table a statement list denotes: each label maps to the last
/// index that carries it.
pub open spec fn label_map(stmts: Seq<Statement>) -> Map<Seq<char>, usize>
    decreases stmts.len(),
{
    if stmts.len() == 0 {
        Map::empty()
    } else {
        let m = label_map(stmts.drop_last());
        match stmts.last() {
            Statement::Label(x) => m.insert(x@, (stmts.len() - 1) as usize),
            _ => m,
        }
    }
}

/// Scans a block's statements once, linearly, recording the index of each
/// label statement; a later statement with the same label silently
/// overwrites the earlier entry, so duplicates resolve to the last
/// occurrence.
pub fn calc_table(blk: &Block) -> (r: NameMap<usize>)
    ensures
        r@ == label_map(blk.statements@),
{
    let mut r = NameMap::<usize>::new();
    let n = blk.statements.len();
    let mut i: usize = 0;
    proof {
        assert(blk.statements@.take(0) =~= Seq::<Statement>::empty());
    }
    while i < n
        invariant
            n == blk.statements@.len(),
            i <= n,
            r@ == label_map(blk.statements@.take(i as int)),
        decreases n - i,
    {
        proof {
            let pre = blk.statements@.take(i as int);
            let post = blk.statements@.take(i as int + 1);
            assert(post.drop_last() =~= pre);
            assert(post.last() == blk.statements@[i as int]);
        }
        match &blk.statements[i] {
            Statement::Label(label) => {
                r.insert(label.clone(), i);
            },
            _ => {},
        }
        i = i + 1;
    }
    proof {
        assert(blk.statements@.take(n as int) =~= blk.statements@);
    }
    r
}

/// What the label table holds: a label is present exactly when some
/// statement carries it, the held index carries the label, and no later
/// statement carries it again.
pub proof fn lemma_label_map_characterization(stmts: Seq<Statement>, l: Seq<char>)
    requires
        stmts.len() <= usize::MAX,
    ensures
        label_map(stmts).contains_key(l) <==> exists|i: int|
            0 <= i < stmts.len() && is_label(#[trigger] stmts[i], l),
        label_map(stmts).contains_key(l) ==> {
            let idx = label_map(stmts)[l] as int;
            &&& 0 <= idx < stmts.len()
            &&& is_label(stmts[idx], l)
            &&& forall|j: int| idx < j < stmts.len() ==> !is_label(#[trigger] stmts[j], l)
        },
    decreases stmts.len(),
{
    if stmts.len() > 0 {
        lemma_label_map_characterization(stmts.drop_last(), l);
        let last = stmts.last();
        assert(stmts.drop_last().len() == stmts.len() - 1);
        assert(forall|i: int| 0 <= i < stmts.len() - 1 ==> stmts.drop_last()[i] == stmts[i]);
        if label_map(stmts).contains_key(l) {
            let idx = label_map(stmts)[l] as int;
            match last {
                Statement::Label(x) => {
                    if x@ == l {
                        assert(idx == stmts.len() - 1);
                        assert(is_label(stmts[idx], l));
                    } else {
                        assert(label_map(stmts) == label_map(stmts.drop_last()).insert(
                            x@,
                            (stmts.len() - 1) as usize,
                        ));
                        assert(label_map(stmts.drop_last()).contains_key(l));
                        assert(idx == label_map(stmts.drop_last())[l] as int);
                        assert(is_label(stmts.drop_last()[idx], l));
                        assert(!is_label(stmts[stmts.len() - 1], l));
                    }
                },
                _ => {
                    assert(label_map(stmts) == label_map(stmts.drop_last()));
                    assert(is_label(stmts.drop_last()[idx], l));
                    assert(!is_label(stmts[stmts.len() - 1], l));
                },
            }
        }
        if exists|i: int| 0 <= i < stmts.len() && is_label(#[trigger] stmts[i], l) {
            let i = choose|i: int| 0 <= i < stmts.len() && is_label(#[trigger] stmts[i], l);
            if i < stmts.len() - 1 {
                assert(is_label(stmts.drop_last()[i], l));
            }
        }
    }
}

/// Duplicate labels resolve to the last occurrence: when two statements
/// carry the same label and the second is the last to do so, the computed
/// table sends a goto of that label to the second index.
pub proof fn lemma_duplicate_labels_last_wins(stmts: Seq<Statement>, l: Seq<char>, i: int, j: int)
    requires
        stmts.len() <= usize::MAX,
        0 <= i < j < stmts.len(),
        is_label(stmts[i], l),
        is_label(stmts[j], l),
        forall|k: int| j < k < stmts.len() ==> !is_label(#[trigger] stmts[k], l),
    ensures
        label_map(stmts).contains_key(l),
        label_map(stmts)[l] == j,
{
    lemma_label_map_characterization(stmts, l);
    let idx = label_map(stmts)[l] as int;
    assert(!(idx < j) || !is_label(stmts[j], l) || !(idx < j < stmts.len()));
    assert(idx == j);
}

} // verus!
