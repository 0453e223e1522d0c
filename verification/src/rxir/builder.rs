//! The module builder: it gives out the ids of blocks and temporaries and
//! owns the blocks of a module until the module is built.

use ascii::AsciiString;
use vstd::prelude::*;

use super::names::ascii_chars;
use super::{
    blocks_view, functions_view, ir_arguments_view, Block, BlockId, BlockIdView, Function,
    FunctionView, Instruction, InstructionView, Module, ModuleView, TempVar, TempVarId,
    TempVarIdView, Type,
};
use crate::table::Table;

verus! {

/// The types of the temporaries of a block.
pub open spec fn types_view(variables: Map<TempVarIdView, TempVar>) -> Map<TempVarIdView, Type> {
    variables.map_values(|variable: TempVar| variable.ty)
}

/// The types of the temporaries of each block.
pub open spec fn variables_view(variables: Map<BlockIdView, Table<TempVarId, TempVar>>) -> Map<
    BlockIdView,
    Map<TempVarIdView, Type>,
> {
    variables.map_values(|table: Table<TempVarId, TempVar>| types_view(table@))
}

/// The id that a builder gives to a block.
pub open spec fn new_block_id(name: Option<AsciiString>, counter: nat) -> BlockIdView {
    match name {
        Some(name) => BlockIdView::Named(ascii_chars(name)),
        None => BlockIdView::Generated(counter as usize),
    }
}

/// The id that a builder gives to a temporary.
pub open spec fn new_temp_var_id(name: Option<AsciiString>, counter: nat) -> TempVarIdView {
    match name {
        Some(name) => TempVarIdView::Named(ascii_chars(name)),
        None => TempVarIdView::Generated(counter as usize),
    }
}

/// The counter after an id was given out: a named id leaves it alone.
pub open spec fn next_counter(name: Option<AsciiString>, counter: nat) -> nat {
    match name {
        Some(_) => counter,
        None => counter + 1,
    }
}

/// Whether every generated id among the blocks' ids and the temporaries is
/// below the counter.
pub open spec fn ids_below(
    blocks: Set<BlockIdView>,
    variables: Map<BlockIdView, Map<TempVarIdView, Type>>,
    counter: nat,
) -> bool {
    &&& forall|n: usize| #[trigger] blocks.contains(BlockIdView::Generated(n)) ==> n < counter
    &&& forall|n: usize| #[trigger]
        variables.contains_key(BlockIdView::Generated(n)) ==> n < counter
    &&& forall|block: BlockIdView, n: usize|
        variables.contains_key(block) && #[trigger] variables[block].contains_key(
            TempVarIdView::Generated(n),
        ) ==> n < counter
}

/// A module in the making.
pub struct ModuleBuilder {
    counter: usize,
    variables: Table<BlockId, Table<TempVarId, TempVar>>,
    blocks: Table<BlockId, Block>,
    functions: Vec<Function>,
}

impl ModuleBuilder {
    /// The number that the next generated id gets. Blocks and temporaries share it.
    pub closed spec fn counter(&self) -> nat {
        self.counter as nat
    }

    /// The blocks made so far.
    pub closed spec fn blocks(&self) -> Map<BlockIdView, Seq<InstructionView>> {
        blocks_view(self.blocks@)
    }

    /// The types of the temporaries made so far, by the block they belong to.
    pub closed spec fn variables(&self) -> Map<BlockIdView, Map<TempVarIdView, Type>> {
        variables_view(self.variables@)
    }

    /// The functions recorded so far.
    pub closed spec fn functions(&self) -> Seq<FunctionView> {
        functions_view(self.functions@)
    }

    /// Whether every generated id that the builder holds is below the
    /// counter: of a block, of the temporaries of a block, of a temporary.
    /// A number that the counter gives out is then the id of nothing made before.
    pub open spec fn wf(&self) -> bool {
        ids_below(self.blocks().dom(), self.variables(), self.counter())
    }

    /// Whether no block made so far holds a temporary with the id.
    pub open spec fn is_fresh_value(&self, id: TempVarIdView) -> bool {
        forall|block: BlockIdView|
            self.variables().contains_key(block) ==> !(#[trigger] self.variables()[block]).contains_key(
                id,
            )
    }

    /// A builder that has made nothing.
    pub fn new() -> (builder: ModuleBuilder)
        ensures
            builder.wf(),
            builder.counter() == 0,
            builder.blocks() == Map::<BlockIdView, Seq<InstructionView>>::empty(),
            builder.variables() == Map::<BlockIdView, Map<TempVarIdView, Type>>::empty(),
            builder.functions() == Seq::<FunctionView>::empty(),
    {
        let builder = ModuleBuilder {
            counter: 0,
            variables: Table::new(),
            blocks: Table::new(),
            functions: Vec::new(),
        };
        assert(builder.blocks() =~= Map::<BlockIdView, Seq<InstructionView>>::empty());
        assert(builder.variables() =~= Map::<BlockIdView, Map<TempVarIdView, Type>>::empty());
        assert(builder.functions() =~= Seq::<FunctionView>::empty());
        builder
    }

    /// Makes an empty block without temporaries and returns its id: the name
    /// where one is given, else the next number. A block that had the id is replaced.
    pub fn create_block(&mut self, name: Option<AsciiString>) -> (id: BlockId)
        requires
            old(self).wf(),
            name is None ==> old(self).counter() < usize::MAX,
        ensures
            final(self).wf(),
            id@ == new_block_id(name, old(self).counter()),
            name is None ==> !old(self).blocks().contains_key(id@) && !old(
                self,
            ).variables().contains_key(id@),
            final(self).counter() == next_counter(name, old(self).counter()),
            final(self).blocks() == old(self).blocks().insert(id@, Seq::empty()),
            final(self).variables() == old(self).variables().insert(id@, Map::empty()),
            final(self).functions() == old(self).functions(),
    {
        let block = Block::default();
        let id = match name {
            Some(name) => BlockId::Named(name),
            None => {
                self.counter += 1;
                BlockId::Generated(self.counter - 1)
            },
        };
        let variables: Table<TempVarId, TempVar> = Table::new();
        assert(types_view(variables@) =~= Map::empty());
        self.blocks.insert(id.clone(), block);
        self.variables.insert(id.clone(), variables);
        assert(self.blocks() =~= old(self).blocks().insert(id@, Seq::empty()));
        assert(self.variables() =~= old(self).variables().insert(id@, Map::empty()));
        id
    }

    /// Makes a temporary of the type in the block and returns its id: the
    /// name where one is given, else the next number.
    pub fn create_value(&mut self, block: &BlockId, ty: Type, name: Option<AsciiString>) -> (id:
        TempVarId)
        requires
            old(self).wf(),
            old(self).variables().contains_key(block@),
            name is None ==> old(self).counter() < usize::MAX,
        ensures
            final(self).wf(),
            id@ == new_temp_var_id(name, old(self).counter()),
            name is None ==> old(self).is_fresh_value(id@),
            final(self).counter() == next_counter(name, old(self).counter()),
            final(self).variables() == old(self).variables().insert(
                block@,
                old(self).variables()[block@].insert(id@, ty),
            ),
            final(self).blocks() == old(self).blocks(),
            final(self).functions() == old(self).functions(),
    {
        let id = match name {
            Some(name) => TempVarId::Named(name),
            None => {
                self.counter += 1;
                TempVarId::Generated(self.counter - 1)
            },
        };
        let ghost before = self.variables@;
        assert(before.contains_key(block@));
        let mut variables = match self.variables.remove(block) {
            Some(variables) => variables,
            None => Table::new(),
        };
        let ghost types_before = types_view(variables@);
        variables.insert(id.clone(), TempVar { ty });
        assert(types_view(variables@) =~= types_before.insert(id@, ty));
        self.variables.insert(block.clone(), variables);
        assert(self.variables() =~= old(self).variables().insert(
            block@,
            old(self).variables()[block@].insert(id@, ty),
        ));
        assert forall|other: BlockIdView, n: usize|
            self.variables().contains_key(other) && #[trigger] self.variables()[other].contains_key(
                TempVarIdView::Generated(n),
            ) implies n < self.counter() by {
            if other == block@ && TempVarIdView::Generated(n) != id@ {
                assert(old(self).variables()[block@].contains_key(TempVarIdView::Generated(n)));
            } else if other != block@ {
                assert(old(self).variables()[other].contains_key(TempVarIdView::Generated(n)));
            }
        }
        id
    }

    /// Makes room on the stack for a value of the type: a temporary that
    /// points to it is made in the block, and the instruction is appended to the block.
    pub fn build_alloca(&mut self, block: &BlockId, ty: Type, name: Option<AsciiString>) -> (id:
        TempVarId)
        requires
            old(self).wf(),
            old(self).variables().contains_key(block@),
            old(self).blocks().contains_key(block@),
            name is None ==> old(self).counter() < usize::MAX,
        ensures
            final(self).wf(),
            id@ == new_temp_var_id(name, old(self).counter()),
            name is None ==> old(self).is_fresh_value(id@),
            final(self).counter() == next_counter(name, old(self).counter()),
            final(self).variables() == old(self).variables().insert(
                block@,
                old(self).variables()[block@].insert(id@, Type::Pointer(Box::new(ty))),
            ),
            final(self).blocks() == old(self).blocks().insert(
                block@,
                old(self).blocks()[block@].push(InstructionView::Alloca { dest: id@, ty }),
            ),
            final(self).functions() == old(self).functions(),
    {
        let ptr_ty = Type::pointer(ty.clone());
        let id = self.create_value(block, ptr_ty, name);
        self.build_instruction(block, Instruction::Alloca { dest: id.clone(), ty });
        id
    }

    /// Whether a block with the id was made.
    pub fn has_block(&self, block: &BlockId) -> (made: bool)
        ensures
            made == self.blocks().contains_key(block@),
    {
        self.blocks.contains_key(block)
    }

    /// Whether temporaries can be made in the block with the id.
    pub fn has_variables(&self, block: &BlockId) -> (made: bool)
        ensures
            made == self.variables().contains_key(block@),
    {
        self.variables.contains_key(block)
    }

    /// Whether a temporary with the id was made in the block.
    pub fn has_value(&self, block: &BlockId, id: &TempVarId) -> (made: bool)
        ensures
            made == (self.variables().contains_key(block@) && self.variables()[block@].contains_key(
                id@,
            )),
    {
        match self.variables.get(block) {
            Some(variables) => {
                assert(types_view(variables@).contains_key(id@) == variables@.contains_key(id@));
                variables.contains_key(id)
            },
            None => false,
        }
    }

    /// Whether the next generated id can be counted.
    pub fn has_room(&self) -> (room: bool)
        ensures
            room == (self.counter() < usize::MAX),
    {
        self.counter < usize::MAX
    }

    /// The block with the id.
    pub fn get_block(&self, block: &BlockId) -> (found: &Block)
        requires
            self.blocks().contains_key(block@),
        ensures
            found@ == self.blocks()[block@],
    {
        assert(self.blocks@.contains_key(block@));
        match self.blocks.get(block) {
            Some(found) => found,
            None => vstd::pervasive::unreached(),
        }
    }

    /// The block with the id, to be changed in place.
    pub fn get_block_mut(&mut self, block: &BlockId) -> (found: &mut Block)
        requires
            old(self).blocks().contains_key(block@),
        ensures
            final(self).wf() == old(self).wf(),
            found@ == old(self).blocks()[block@],
            final(self).blocks() == old(self).blocks().insert(block@, final(found)@),
            final(self).counter() == old(self).counter(),
            final(self).variables() == old(self).variables(),
            final(self).functions() == old(self).functions(),
    {
        assert(self.blocks@.contains_key(block@));
        let ghost before = self.blocks@;
        match self.blocks.get_mut(block) {
            Some(found) => {
                assert(blocks_view(before.insert(block@, *final(found))) =~= blocks_view(
                    before,
                ).insert(block@, final(found)@));
                assert(blocks_view(before).insert(block@, final(found)@).dom() =~= blocks_view(
                    before,
                ).dom());
                found
            },
            None => vstd::pervasive::unreached(),
        }
    }

    /// The type of the temporary with the id, which was made in the block.
    pub fn get_var_type(&self, block: &BlockId, id: &TempVarId) -> (ty: Type)
        requires
            self.variables().contains_key(block@),
            self.variables()[block@].contains_key(id@),
        ensures
            ty == self.variables()[block@][id@],
    {
        assert(self.variables@.contains_key(block@));
        match self.variables.get(block) {
            Some(variables) => {
                assert(types_view(variables@).contains_key(id@));
                assert(variables@.contains_key(id@));
                match variables.get(id) {
                    Some(variable) => variable.ty.clone(),
                    None => vstd::pervasive::unreached(),
                }
            },
            None => vstd::pervasive::unreached(),
        }
    }

    /// Records a function.
    pub fn build_function(
        &mut self,
        signature: AsciiString,
        arguments: Vec<(TempVarId, Type)>,
        return_ty: Type,
        entry: BlockId,
    )
        ensures
            final(self).wf() == old(self).wf(),
            final(self).functions() == old(self).functions().push(
                FunctionView {
                    signature: ascii_chars(signature),
                    arguments: ir_arguments_view(arguments@),
                    entry: entry@,
                    return_ty,
                },
            ),
            final(self).counter() == old(self).counter(),
            final(self).blocks() == old(self).blocks(),
            final(self).variables() == old(self).variables(),
    {
        let function = Function { signature, arguments, return_ty, entry };
        self.functions.push(function);
        assert(self.functions() =~= old(self).functions().push(function@));
    }

    /// Appends the instruction to the block.
    pub fn build_instruction(&mut self, block: &BlockId, instruction: Instruction)
        requires
            old(self).blocks().contains_key(block@),
        ensures
            final(self).wf() == old(self).wf(),
            final(self).blocks() == old(self).blocks().insert(
                block@,
                old(self).blocks()[block@].push(instruction@),
            ),
            final(self).counter() == old(self).counter(),
            final(self).variables() == old(self).variables(),
            final(self).functions() == old(self).functions(),
    {
        let target = self.get_block_mut(block);
        let ghost before = target@;
        target.instructions.push(instruction);
        assert(target@ =~= before.push(instruction@));
    }

    /// The module of the blocks and functions made, under the name.
    pub fn build(self, name: AsciiString) -> (module: Module)
        ensures
            module@ == (ModuleView {
                name: ascii_chars(name),
                blocks: self.blocks(),
                functions: self.functions(),
            }),
    {
        Module { name, blocks: self.blocks, functions: self.functions }
    }
}

} // verus!
