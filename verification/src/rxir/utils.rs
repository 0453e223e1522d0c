//! Walks over the blocks of a module.

use vstd::prelude::*;

use super::{
    connected_blocks, lemma_visit_new_block, related_blocks, unvisited, visit, BlockId, BlockIdView,
    Function, Module,
};
use crate::table::Key;

verus! {

/// The value of each block id of a list, in order.
pub open spec fn block_ids_view(blocks: Seq<BlockId>) -> Seq<BlockIdView> {
    Seq::new(blocks.len(), |i: int| blocks[i]@)
}

/// Whether the block is among the blocks.
fn contains(blocks: &Vec<BlockId>, block: &BlockId) -> (found: bool)
    ensures
        found == block_ids_view(blocks@).contains(block@),
{
    let mut i: usize = 0;
    while i < blocks.len()
        invariant
            i <= blocks@.len(),
            forall|j: int| 0 <= j < i ==> block_ids_view(blocks@)[j] != block@,
        decreases blocks@.len() - i,
    {
        if blocks[i].same(block) {
            assert(block_ids_view(blocks@)[i as int] == block@);
            return true;
        }
        i += 1;
    }
    false
}

/// The blocks of the function in the order of execution: those reached from
/// its entry, depth first in the order in which each block names the blocks it
/// leads to, each where it is reached first.
pub fn get_related_blocks(module: &Module, function: &Function) -> (blocks: Vec<BlockId>)
    ensures
        block_ids_view(blocks@) == related_blocks(module@, function@),
{
    let mut blocks: Vec<BlockId> = Vec::new();
    let mut pending: Vec<BlockId> = Vec::new();
    pending.push(function.entry.clone());
    proof {
        module.lemma_finite();
        assert(block_ids_view(blocks@) =~= Seq::empty());
        assert(block_ids_view(pending@) =~= seq![function@.entry]);
    }
    while pending.len() > 0
        invariant
            module@.blocks.dom().finite(),
            visit(module@, block_ids_view(pending@), block_ids_view(blocks@)) == related_blocks(
                module@,
                function@,
            ),
        decreases unvisited(module@, block_ids_view(blocks@)).len(), pending@.len(),
    {
        let ghost stack = block_ids_view(pending@);
        let ghost visited = block_ids_view(blocks@);
        let ghost rest = stack.drop_last();
        let block = match pending.pop() {
            Some(block) => block,
            None => {
                return blocks;
            },
        };
        assert(block@ == stack.last());
        assert(block_ids_view(pending@) =~= rest);
        if !contains(&blocks, &block) {
            let successors = get_connected_blocks(module, &block);
            let ghost next = block_ids_view(successors@);
            proof {
                lemma_visit_new_block(module@, block@, visited);
            }
            blocks.push(block);
            assert(block_ids_view(blocks@) =~= visited.push(block@));
            let mut i: usize = successors.len();
            assert(block_ids_view(pending@) =~= rest + next.reverse().take(0));
            while i > 0
                invariant
                    i <= successors@.len(),
                    next == block_ids_view(successors@),
                    block_ids_view(pending@) == rest + next.reverse().take(next.len() - i),
                decreases i,
            {
                let ghost before = block_ids_view(pending@);
                i -= 1;
                pending.push(successors[i].clone());
                proof {
                    assert(next[i as int] == successors@[i as int]@);
                    assert(next.reverse()[next.len() - 1 - i] == next[i as int]);
                    assert(block_ids_view(pending@) =~= before.push(next[i as int]));
                    assert(next.reverse().take(next.len() - i) =~= next.reverse().take(
                        next.len() - 1 - i,
                    ).push(next[i as int]));
                    assert(block_ids_view(pending@) =~= rest + next.reverse().take(
                        next.len() - i,
                    ));
                }
            }
            assert(next.reverse().take(next.len() as int) =~= next.reverse());
        }
    }
    assert(block_ids_view(pending@) =~= Seq::empty());
    blocks
}

/// The blocks that the block leads to, in the order in which its last
/// instruction names them. A block that the module lacks, or that is empty,
/// leads nowhere.
pub fn get_connected_blocks(module: &Module, block: &BlockId) -> (blocks: Vec<BlockId>)
    ensures
        block_ids_view(blocks@) == connected_blocks(module@, block@),
{
    match module.blocks.get(block) {
        Some(found) => {
            let count = found.instructions.len();
            if count > 0 {
                assert(found@.last() == found.instructions@[count - 1]@);
                found.instructions[count - 1].targets()
            } else {
                let blocks: Vec<BlockId> = Vec::new();
                assert(block_ids_view(blocks@) =~= Seq::empty());
                blocks
            }
        },
        None => {
            let blocks: Vec<BlockId> = Vec::new();
            assert(block_ids_view(blocks@) =~= Seq::empty());
            blocks
        },
    }
}

} // verus!
