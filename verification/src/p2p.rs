use vstd::prelude::*;

use crate::blockchain::{block_views, spec_block_valid, Block, BlockView, Blockchain};
use crate::state::{spec_stage_block, Account};

verus! {

/// A catch-up request: asks a peer for every block with index strictly
/// greater than `since_index`.
pub enum SyncRequest {
    GetBlocks { since_index: u64 },
}

/// The catch-up reply: the requested chain suffix, in ascending order.
pub enum SyncResponse {
    Blocks { blocks: Vec<Block> },
}

/// What a node's chain and store become after working through a received
/// block sequence in order: a block at or below the local tip is skipped, a
/// newer valid block is appended and committed, and the first newer block
/// that fails validation stops the run.
pub open spec fn spec_sync_result(
    chain: Seq<BlockView>,
    store: Map<Seq<u8>, Account>,
    blocks: Seq<BlockView>,
) -> (Seq<BlockView>, Map<Seq<u8>, Account>)
    recommends
        chain.len() >= 1,
    decreases blocks.len(),
{
    if blocks.len() == 0 {
        (chain, store)
    } else {
        let b = blocks.first();
        if b.index > chain.last().index {
            if spec_block_valid(b, chain.last(), store) {
                match spec_stage_block(store, b.transactions) {
                    Ok(st) => spec_sync_result(
                        chain.push(b),
                        store.union_prefer_right(st),
                        blocks.drop_first(),
                    ),
                    Err(_) => (chain, store),
                }
            } else {
                (chain, store)
            }
        } else {
            spec_sync_result(chain, store, blocks.drop_first())
        }
    }
}

/// Answers a catch-up request with the suffix of the local chain that lies
/// strictly above the requested index.
pub fn handle_get_blocks(chain: &Blockchain, request: &SyncRequest) -> (r: SyncResponse)
    requires
        chain.wf(),
    ensures
        (r matches SyncResponse::Blocks { blocks } && block_views(blocks@) == chain.chain_view()
            .skip(
            if request->GetBlocks_since_index + 1 <= chain.chain_view().len() {
                (request->GetBlocks_since_index + 1) as int
            } else {
                chain.chain_view().len() as int
            },
        )),
{
    let since_index = match request {
        SyncRequest::GetBlocks { since_index } => *since_index,
    };
    SyncResponse::Blocks { blocks: chain.blocks_since(since_index) }
}

/// Handles one gossiped block: applied through the validation pipeline when
/// it claims to sit above the local tip, dropped otherwise. Returns whether
/// the chain grew.
pub fn handle_new_block(chain: &mut Blockchain, block: Block) -> (r: bool)
    requires
        old(chain).wf(),
    ensures
        final(chain).wf(),
        r == (block@.index > old(chain).tip_view().index && spec_block_valid(
            block@,
            old(chain).tip_view(),
            old(chain).state_view(),
        )),
        r ==> final(chain).chain_view() == old(chain).chain_view().push(block@) && (
        spec_stage_block(old(chain).state_view(), block@.transactions) matches Ok(st)
            && final(chain).state_view() == old(chain).state_view().union_prefer_right(st)),
        !r ==> final(chain).chain_view() == old(chain).chain_view() && final(chain).state_view()
            == old(chain).state_view(),
{
    let newer = block.index > chain.tip().index;
    if newer {
        chain.add_block(block)
    } else {
        false
    }
}

/// Works through a catch-up reply in order: skips blocks at or below the
/// local tip, appends newer valid blocks, and stops at the first newer block
/// the pipeline rejects instead of skipping ahead.
pub fn handle_blocks_response(chain: &mut Blockchain, blocks: Vec<Block>)
    requires
        old(chain).wf(),
    ensures
        final(chain).wf(),
        final(chain).chain_view() == spec_sync_result(
            old(chain).chain_view(),
            old(chain).state_view(),
            block_views(blocks@),
        ).0,
        final(chain).state_view() == spec_sync_result(
            old(chain).chain_view(),
            old(chain).state_view(),
            block_views(blocks@),
        ).1,
{
    let ghost all = block_views(blocks@);
    let n = blocks.len();
    let mut i: usize = 0;
    proof {
        assert(all.skip(0) =~= all);
    }
    while i < n
        invariant
            n == blocks@.len(),
            all == block_views(blocks@),
            0 <= i <= n,
            chain.wf(),
            spec_sync_result(chain.chain_view(), chain.state_view(), all.skip(i as int))
                == spec_sync_result(old(chain).chain_view(), old(chain).state_view(), all),
        decreases n - i,
    {
        proof {
            assert(all.skip(i as int).first() == all[i as int]);
            assert(all[i as int] == blocks@[i as int]@);
            assert(all.skip(i as int).drop_first() =~= all.skip(i + 1));
        }
        let newer = blocks[i].index > chain.tip().index;
        if newer {
            let b = blocks[i].clone();
            let ok = chain.add_block(b);
            if !ok {
                return ;
            }
        }
        i = i + 1;
    }
    proof {
        assert(all.skip(n as int) =~= Seq::<BlockView>::empty());
    }
}

} // verus!
