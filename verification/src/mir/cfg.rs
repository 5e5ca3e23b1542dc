//! The control-flow graph under construction.

use crate::indexed::Blocks;
use crate::mir::{
    blocks_view, BasicBlock, BlockId, BlockView, Lvalue, Rvalue, SpanInfo, Stmt, StmtKind,
    Terminator, TerminatorKind, ENTRY_BLOCK,
};
use vstd::prelude::*;

verus! {

pub struct Cfg {
    pub basic_blocks: Blocks,
}

impl View for Cfg {
    type V = Seq<BlockView>;

    open spec fn view(&self) -> Seq<BlockView> {
        blocks_view(self.basic_blocks@)
    }
}

/// The blocks with a statement at the end of one of them.
pub open spec fn push_stmt(blocks: Seq<BlockView>, block: BlockId, stmt: Stmt) -> Seq<BlockView> {
    blocks.update(block.0 as int, blocks[block.0 as int].push(stmt))
}

/// The blocks with one of them terminated.
pub open spec fn set_terminator(blocks: Seq<BlockView>, block: BlockId, t: Terminator) -> Seq<
    BlockView,
> {
    blocks.update(block.0 as int, blocks[block.0 as int].terminate(t))
}

impl Cfg {
    /// A graph that holds the entry block and nothing else.
    pub fn new() -> (cfg: Cfg)
        ensures
            cfg@ == seq![BlockView::empty()],
    {
        let mut cfg = Cfg { basic_blocks: Blocks::new() };
        cfg.basic_blocks.push(BasicBlock { stmts: Vec::new(), terminator: None });
        assert(cfg@ =~= seq![BlockView::empty()]);
        cfg
    }

    /// Allocates an empty block at the end of the graph.
    pub fn append_basic_block(&mut self) -> (b: BlockId)
        ensures
            b.0 == old(self)@.len(),
            final(self)@ == old(self)@.push(BlockView::empty()),
    {
        let b = self.basic_blocks.push(BasicBlock { stmts: Vec::new(), terminator: None });
        assert(self@ =~= old(self)@.push(BlockView::empty()));
        b
    }

    /// Appends a statement to a block.
    pub fn push(&mut self, block: BlockId, stmt: Stmt)
        requires
            block.0 < old(self)@.len(),
        ensures
            final(self)@ == push_stmt(old(self)@, block, stmt),
    {
        let mut bb = BasicBlock { stmts: Vec::new(), terminator: None };
        self.basic_blocks.swap(block, &mut bb);
        bb.stmts.push(stmt);
        self.basic_blocks.swap(block, &mut bb);
        assert(self@ =~= push_stmt(old(self)@, block, stmt));
    }

    pub fn push_assignment(&mut self, info: SpanInfo, block: BlockId, lvalue: Lvalue, rvalue: Rvalue)
        requires
            block.0 < old(self)@.len(),
        ensures
            final(self)@ == push_stmt(
                old(self)@,
                block,
                (Stmt { info, kind: StmtKind::Assign(lvalue, rvalue) }),
            ),
    {
        self.push(block, Stmt { info, kind: StmtKind::Assign(lvalue, rvalue) });
    }

    /// Attaches a terminator to a block that has none yet.
    pub fn terminate(&mut self, info: SpanInfo, block: BlockId, kind: TerminatorKind)
        requires
            block.0 < old(self)@.len(),
            old(self)@[block.0 as int].terminator is None,
        ensures
            final(self)@ == set_terminator(old(self)@, block, (Terminator { info, kind })),
    {
        let mut bb = BasicBlock { stmts: Vec::new(), terminator: None };
        self.basic_blocks.swap(block, &mut bb);
        bb.terminator = Some(Terminator { info, kind });
        self.basic_blocks.swap(block, &mut bb);
        assert(self@ =~= set_terminator(old(self)@, block, (Terminator { info, kind })));
    }
}

} // verus!
