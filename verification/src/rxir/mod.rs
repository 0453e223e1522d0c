//! RXIR, the intermediate representation: modules of functions over a flat
//! table of blocks, in three-address form.
//!
//! In the textual form, names that start with `%` are temporaries and names
//! that start with `@` are block labels.

use ascii::AsciiString;
use vstd::prelude::*;
use vstd::string::StringExecFns;

pub mod builder;
pub mod names;
pub mod operand;
pub mod pass;
pub mod utils;

pub use builder::ModuleBuilder;
pub use names::ascii_chars;
pub use operand::{Operand, OperandView};
pub use pass::{GenerationPass, PassManager, VerificationPass};

use crate::table::{Key, Table};
use crate::text::{decimal, push_decimal};
use names::{ascii_as_str, ascii_clone, ascii_eq};

verus! {

/// The identity of a temporary: a number that a builder gave out, or a name.
#[derive(Debug, PartialEq, Eq, Hash, PartialOrd, Ord)]
pub enum TempVarId {
    Generated(usize),
    Named(AsciiString),
}

/// The mathematical value of a [`TempVarId`].
pub enum TempVarIdView {
    Generated(usize),
    Named(Seq<char>),
}

impl View for TempVarId {
    type V = TempVarIdView;

    open spec fn view(&self) -> TempVarIdView {
        match self {
            TempVarId::Generated(number) => TempVarIdView::Generated(*number),
            TempVarId::Named(name) => TempVarIdView::Named(ascii_chars(*name)),
        }
    }
}

impl Clone for TempVarId {
    fn clone(&self) -> (copy: TempVarId)
        ensures
            copy@ == self@,
    {
        match self {
            TempVarId::Generated(number) => TempVarId::Generated(*number),
            TempVarId::Named(name) => TempVarId::Named(ascii_clone(name)),
        }
    }
}

impl Key for TempVarId {
    fn same(&self, other: &TempVarId) -> (equal: bool) {
        match (self, other) {
            (TempVarId::Generated(left), TempVarId::Generated(right)) => *left == *right,
            (TempVarId::Named(left), TempVarId::Named(right)) => ascii_eq(left, right),
            _ => false,
        }
    }
}

/// The identity of a block: a number that a builder gave out, or a name.
#[derive(Debug, PartialEq, Eq, Hash, PartialOrd, Ord)]
pub enum BlockId {
    Generated(usize),
    Named(AsciiString),
}

/// The mathematical value of a [`BlockId`].
pub enum BlockIdView {
    Generated(usize),
    Named(Seq<char>),
}

impl View for BlockId {
    type V = BlockIdView;

    open spec fn view(&self) -> BlockIdView {
        match self {
            BlockId::Generated(number) => BlockIdView::Generated(*number),
            BlockId::Named(name) => BlockIdView::Named(ascii_chars(*name)),
        }
    }
}

impl Clone for BlockId {
    fn clone(&self) -> (copy: BlockId)
        ensures
            copy@ == self@,
    {
        match self {
            BlockId::Generated(number) => BlockId::Generated(*number),
            BlockId::Named(name) => BlockId::Named(ascii_clone(name)),
        }
    }
}

impl Key for BlockId {
    fn same(&self, other: &BlockId) -> (equal: bool) {
        match (self, other) {
            (BlockId::Generated(left), BlockId::Generated(right)) => *left == *right,
            (BlockId::Named(left), BlockId::Named(right)) => ascii_eq(left, right),
            _ => false,
        }
    }
}

impl TempVarIdView {
    /// The textual form: `%` and the number or the name.
    pub open spec fn text(self) -> Seq<char> {
        match self {
            TempVarIdView::Generated(number) => "%"@ + decimal(number as nat),
            TempVarIdView::Named(name) => "%"@ + name,
        }
    }
}

impl BlockIdView {
    /// The textual form: `@` and the number or the name.
    pub open spec fn text(self) -> Seq<char> {
        match self {
            BlockIdView::Generated(number) => "@"@ + decimal(number as nat),
            BlockIdView::Named(name) => "@"@ + name,
        }
    }
}

impl TempVarId {
    /// Appends the textual form to the text.
    pub fn write(&self, text: &mut String)
        ensures
            final(text)@ == old(text)@ + self@.text(),
    {
        text.append("%");
        match self {
            TempVarId::Generated(number) => push_decimal(text, *number as u64),
            TempVarId::Named(name) => text.append(ascii_as_str(name)),
        }
        assert(text@ =~= old(text)@ + self@.text());
    }

    /// The textual form.
    pub fn to_string(&self) -> (text: String)
        ensures
            text@ == self@.text(),
    {
        let mut text = String::new();
        self.write(&mut text);
        assert(text@ =~= self@.text());
        text
    }
}

impl BlockId {
    /// Appends the textual form to the text.
    pub fn write(&self, text: &mut String)
        ensures
            final(text)@ == old(text)@ + self@.text(),
    {
        text.append("@");
        match self {
            BlockId::Generated(number) => push_decimal(text, *number as u64),
            BlockId::Named(name) => text.append(ascii_as_str(name)),
        }
        assert(text@ =~= old(text)@ + self@.text());
    }

    /// The textual form.
    pub fn to_string(&self) -> (text: String)
        ensures
            text@ == self@.text(),
    {
        let mut text = String::new();
        self.write(&mut text);
        assert(text@ =~= self@.text());
        text
    }
}

/// What is known of a temporary: its type.
#[derive(Debug)]
pub struct TempVar {
    pub ty: Type,
}

impl Clone for TempVar {
    fn clone(&self) -> (copy: TempVar)
        ensures
            copy == *self,
    {
        TempVar { ty: self.ty.clone() }
    }
}

/// An RXIR type.
#[derive(Debug, PartialEq, Eq)]
pub enum Type {
    Void,
    Signed32,
    Pointer(Box<Type>),
}

impl Clone for Type {
    fn clone(&self) -> (copy: Type)
        ensures
            copy == *self,
        decreases self,
    {
        match self {
            Type::Void => Type::Void,
            Type::Signed32 => Type::Signed32,
            Type::Pointer(inner) => Type::Pointer(Box::new((**inner).clone())),
        }
    }
}

/// The textual form of a type: `void`, `i32`, and a pointer as its target and `*`.
pub open spec fn type_text(ty: Type) -> Seq<char>
    decreases ty,
{
    match ty {
        Type::Void => "void"@,
        Type::Signed32 => "i32"@,
        Type::Pointer(inner) => type_text(*inner) + "*"@,
    }
}

impl Type {
    /// The type of pointers to `ty`.
    pub fn pointer(ty: Type) -> (pointer: Type)
        ensures
            pointer == Type::Pointer(Box::new(ty)),
    {
        Type::Pointer(Box::new(ty))
    }

    /// Appends the textual form to the text.
    pub fn write(&self, text: &mut String)
        ensures
            final(text)@ == old(text)@ + type_text(*self),
        decreases self,
    {
        match self {
            Type::Void => text.append("void"),
            Type::Signed32 => text.append("i32"),
            Type::Pointer(inner) => {
                inner.write(text);
                text.append("*");
                assert(text@ =~= old(text)@ + type_text(*self));
            },
        }
    }

    /// The textual form.
    pub fn to_string(&self) -> (text: String)
        ensures
            text@ == type_text(*self),
    {
        let mut text = String::new();
        self.write(&mut text);
        assert(text@ =~= type_text(*self));
        text
    }
}

/// An instruction.
#[derive(Debug)]
#[allow(inconsistent_fields)]
pub enum Instruction {
    /// Makes room on the stack for a value of type `ty`; `dest` is a pointer to it.
    Alloca { dest: TempVarId, ty: Type },
    /// Leaves the function, with a value or without one.
    Return { value: Option<Operand> },
    Load { dest: TempVarId, src: TempVarId },
    Store { dest: TempVarId, src: Operand },
}

/// The mathematical value of an [`Instruction`].
#[allow(inconsistent_fields)]
pub enum InstructionView {
    Alloca { dest: TempVarIdView, ty: Type },
    Return { value: Option<OperandView> },
    Load { dest: TempVarIdView, src: TempVarIdView },
    Store { dest: TempVarIdView, src: OperandView },
}

impl View for Instruction {
    type V = InstructionView;

    open spec fn view(&self) -> InstructionView {
        match self {
            Instruction::Alloca { dest, ty } => InstructionView::Alloca { dest: dest@, ty: *ty },
            Instruction::Return { value: Some(value) } => InstructionView::Return {
                value: Some(value@),
            },
            Instruction::Return { value: None } => InstructionView::Return { value: None },
            Instruction::Load { dest, src } => InstructionView::Load { dest: dest@, src: src@ },
            Instruction::Store { dest, src } => InstructionView::Store { dest: dest@, src: src@ },
        }
    }
}

impl Clone for Instruction {
    fn clone(&self) -> (copy: Instruction)
        ensures
            copy@ == self@,
    {
        match self {
            Instruction::Alloca { dest, ty } => Instruction::Alloca {
                dest: dest.clone(),
                ty: ty.clone(),
            },
            Instruction::Return { value: Some(value) } => Instruction::Return {
                value: Some(value.clone()),
            },
            Instruction::Return { value: None } => Instruction::Return { value: None },
            Instruction::Load { dest, src } => Instruction::Load {
                dest: dest.clone(),
                src: src.clone(),
            },
            Instruction::Store { dest, src } => Instruction::Store {
                dest: dest.clone(),
                src: src.clone(),
            },
        }
    }
}

impl InstructionView {
    /// Whether the instruction has a textual form: `alloca` and `return` have one.
    pub open spec fn has_text(self) -> bool {
        self is Alloca || self is Return
    }

    /// The textual form: `%d = alloca <ty>`, `return void` or `return <ty> <operand>`.
    pub open spec fn text(self) -> Seq<char> {
        match self {
            InstructionView::Alloca { dest, ty } => dest.text() + " = alloca "@ + type_text(ty),
            InstructionView::Return { value: None } => "return void"@,
            InstructionView::Return { value: Some(value) } => "return "@ + type_text(value.ty())
                + " "@ + value.text(),
            _ => Seq::empty(),
        }
    }
}

impl Instruction {
    /// Whether the instruction has a textual form.
    pub fn has_text(&self) -> (printable: bool)
        ensures
            printable == self@.has_text(),
    {
        match self {
            Instruction::Alloca { .. } => true,
            Instruction::Return { value } => {
                assert(self@ is Return);
                true
            },
            Instruction::Load { .. } => false,
            Instruction::Store { .. } => false,
        }
    }

    /// Appends the textual form to the text.
    pub fn write(&self, text: &mut String)
        requires
            self@.has_text(),
        ensures
            final(text)@ == old(text)@ + self@.text(),
    {
        match self {
            Instruction::Alloca { dest, ty } => {
                dest.write(text);
                text.append(" = alloca ");
                ty.write(text);
                assert(text@ =~= old(text)@ + self@.text());
            },
            Instruction::Return { value } => match value {
                None => text.append("return void"),
                Some(value) => {
                    text.append("return ");
                    value.ty().write(text);
                    text.append(" ");
                    value.write(text);
                    assert(text@ =~= old(text)@ + self@.text());
                },
            },
            _ => {},
        }
    }

    /// The textual form.
    pub fn to_string(&self) -> (text: String)
        requires
            self@.has_text(),
        ensures
            text@ == self@.text(),
    {
        let mut text = String::new();
        self.write(&mut text);
        assert(text@ =~= self@.text());
        text
    }
}

/// A block: instructions in order, the last of which leaves the block.
#[derive(Debug)]
pub struct Block {
    pub instructions: Vec<Instruction>,
}

impl View for Block {
    type V = Seq<InstructionView>;

    open spec fn view(&self) -> Seq<InstructionView> {
        Seq::new(self.instructions@.len(), |i: int| self.instructions@[i]@)
    }
}

impl Clone for Block {
    fn clone(&self) -> (copy: Block)
        ensures
            copy@ == self@,
    {
        let mut instructions: Vec<Instruction> = Vec::new();
        let mut i: usize = 0;
        while i < self.instructions.len()
            invariant
                i <= self.instructions@.len(),
                instructions@.len() == i,
                forall|j: int| 0 <= j < i ==> instructions@[j]@ == self.instructions@[j]@,
            decreases self.instructions@.len() - i,
        {
            instructions.push(self.instructions[i].clone());
            i += 1;
        }
        let copy = Block { instructions };
        assert(copy@ =~= self@);
        copy
    }
}

impl Default for Block {
    fn default() -> (block: Block)
        ensures
            block@ == Seq::<InstructionView>::empty(),
    {
        let block = Block { instructions: Vec::new() };
        assert(block@ =~= Seq::<InstructionView>::empty());
        block
    }
}

/// Whether every instruction of the block has a textual form.
pub open spec fn block_has_text(block: Seq<InstructionView>) -> bool {
    forall|i: int| 0 <= i < block.len() ==> (#[trigger] block[i]).has_text()
}

/// The textual form of a block: each instruction on a line of its own, indented.
pub open spec fn block_text(block: Seq<InstructionView>) -> Seq<char>
    decreases block.len(),
{
    if block.len() == 0 {
        Seq::empty()
    } else {
        block_text(block.drop_last()) + "    "@ + block.last().text() + "\n"@
    }
}

impl Block {
    /// Whether every instruction of the block has a textual form.
    pub fn has_text(&self) -> (printable: bool)
        ensures
            printable == block_has_text(self@),
    {
        let mut i: usize = 0;
        while i < self.instructions.len()
            invariant
                i <= self.instructions@.len(),
                forall|j: int| 0 <= j < i ==> (#[trigger] self@[j]).has_text(),
            decreases self.instructions@.len() - i,
        {
            assert(self@[i as int] == self.instructions@[i as int]@);
            if !self.instructions[i].has_text() {
                return false;
            }
            i += 1;
        }
        true
    }

    /// Appends the textual form to the text.
    pub fn write(&self, text: &mut String)
        requires
            block_has_text(self@),
        ensures
            final(text)@ == old(text)@ + block_text(self@),
    {
        let mut i: usize = 0;
        assert(self@.take(0) =~= Seq::empty());
        assert(text@ =~= old(text)@ + block_text(self@.take(0)));
        while i < self.instructions.len()
            invariant
                i <= self.instructions@.len(),
                block_has_text(self@),
                text@ == old(text)@ + block_text(self@.take(i as int)),
            decreases self.instructions@.len() - i,
        {
            let ghost before = text@;
            assert(self@[i as int].has_text());
            text.append("    ");
            self.instructions[i].write(text);
            text.append("\n");
            proof {
                assert(self@.take(i + 1).drop_last() =~= self@.take(i as int));
                assert(self@.take(i + 1).last() == self.instructions@[i as int]@);
                assert(text@ =~= old(text)@ + block_text(self@.take(i + 1)));
            }
            i += 1;
        }
        assert(self@.take(i as int) =~= self@);
    }

    /// The textual form.
    pub fn to_string(&self) -> (text: String)
        requires
            block_has_text(self@),
        ensures
            text@ == block_text(self@),
    {
        let mut text = String::new();
        self.write(&mut text);
        assert(text@ =~= block_text(self@));
        text
    }
}

/// A function: its name for the linker, its arguments, its return type and
/// the block at which it is entered.
#[derive(Debug)]
pub struct Function {
    pub signature: AsciiString,
    pub arguments: Vec<(TempVarId, Type)>,
    pub entry: BlockId,
    pub return_ty: Type,
}

/// The mathematical value of a [`Function`].
pub struct FunctionView {
    pub signature: Seq<char>,
    pub arguments: Seq<(TempVarIdView, Type)>,
    pub entry: BlockIdView,
    pub return_ty: Type,
}

/// The value of each argument of a list, in order.
pub open spec fn ir_arguments_view(arguments: Seq<(TempVarId, Type)>) -> Seq<
    (TempVarIdView, Type),
> {
    Seq::new(arguments.len(), |i: int| (arguments[i].0@, arguments[i].1))
}

impl View for Function {
    type V = FunctionView;

    open spec fn view(&self) -> FunctionView {
        FunctionView {
            signature: ascii_chars(self.signature),
            arguments: ir_arguments_view(self.arguments@),
            entry: self.entry@,
            return_ty: self.return_ty,
        }
    }
}

impl Clone for Function {
    fn clone(&self) -> (copy: Function)
        ensures
            copy@ == self@,
    {
        let mut arguments: Vec<(TempVarId, Type)> = Vec::new();
        let mut i: usize = 0;
        while i < self.arguments.len()
            invariant
                i <= self.arguments@.len(),
                arguments@.len() == i,
                forall|j: int|
                    0 <= j < i ==> arguments@[j].0@ == self.arguments@[j].0@ && arguments@[j].1
                        == self.arguments@[j].1,
            decreases self.arguments@.len() - i,
        {
            arguments.push((self.arguments[i].0.clone(), self.arguments[i].1.clone()));
            i += 1;
        }
        assert(ir_arguments_view(arguments@) =~= ir_arguments_view(self.arguments@));
        Function {
            signature: ascii_clone(&self.signature),
            arguments,
            entry: self.entry.clone(),
            return_ty: self.return_ty.clone(),
        }
    }
}

/// A module: a name, functions, and the blocks of all of them. The blocks
/// belong to the module, not to the functions.
#[derive(Debug)]
pub struct Module {
    pub name: AsciiString,
    pub blocks: Table<BlockId, Block>,
    pub functions: Vec<Function>,
}

/// The mathematical value of a [`Module`].
pub struct ModuleView {
    pub name: Seq<char>,
    pub blocks: Map<BlockIdView, Seq<InstructionView>>,
    pub functions: Seq<FunctionView>,
}

/// The value of each function of a list, in order.
pub open spec fn functions_view(functions: Seq<Function>) -> Seq<FunctionView> {
    Seq::new(functions.len(), |i: int| functions[i]@)
}

/// The value of each block of a table.
pub open spec fn blocks_view(blocks: Map<BlockIdView, Block>) -> Map<
    BlockIdView,
    Seq<InstructionView>,
> {
    blocks.map_values(|block: Block| block@)
}

impl View for Module {
    type V = ModuleView;

    open spec fn view(&self) -> ModuleView {
        ModuleView {
            name: ascii_chars(self.name),
            blocks: blocks_view(self.blocks@),
            functions: functions_view(self.functions@),
        }
    }
}

impl InstructionView {
    /// The blocks that the instruction hands control to, in the order in
    /// which it names them. A `return` leaves the function and the other
    /// instructions go on to the next one: so far none names a block.
    #[verifier::opaque]
    pub open spec fn targets(self) -> Seq<BlockIdView> {
        match self {
            InstructionView::Return { .. } => Seq::empty(),
            InstructionView::Alloca { .. } => Seq::empty(),
            InstructionView::Load { .. } => Seq::empty(),
            InstructionView::Store { .. } => Seq::empty(),
        }
    }
}

/// The blocks that a block of the module leads to: those that its last
/// instruction names, in that order. A block that the module lacks, or that is
/// empty, leads nowhere.
pub open spec fn connected_blocks(module: ModuleView, block: BlockIdView) -> Seq<BlockIdView> {
    if module.blocks.contains_key(block) && module.blocks[block].len() > 0 {
        module.blocks[block].last().targets()
    } else {
        Seq::empty()
    }
}

/// The blocks of the module that were not visited.
pub open spec fn unvisited(module: ModuleView, visited: Seq<BlockIdView>) -> Set<BlockIdView> {
    module.blocks.dom().difference(visited.to_set())
}

/// The blocks in the order of a walk that goes depth first. `pending` is
/// the stack of the blocks to walk to, the next one last, and `visited` holds
/// the blocks walked to so far, in order. The walk takes the next block off the
/// stack; if it is new, it is visited, and the blocks it leads to are put on
/// the stack, the first of them on top. It ends when the stack is empty.
pub open spec fn visit(
    module: ModuleView,
    pending: Seq<BlockIdView>,
    visited: Seq<BlockIdView>,
) -> Seq<BlockIdView>
    decreases unvisited(module, visited).len(), pending.len(),
    when module.blocks.dom().finite()
    via visit_decreases
{
    if pending.len() == 0 {
        visited
    } else if visited.contains(pending.last()) {
        visit(module, pending.drop_last(), visited)
    } else {
        visit(
            module,
            pending.drop_last() + connected_blocks(module, pending.last()).reverse(),
            visited.push(pending.last()),
        )
    }
}

#[via_fn]
proof fn visit_decreases(module: ModuleView, pending: Seq<BlockIdView>, visited: Seq<BlockIdView>) {
    if pending.len() > 0 && !visited.contains(pending.last()) {
        lemma_visit_new_block(module, pending.last(), visited);
    }
}

/// A visit to a new block of the module leaves fewer blocks to visit. A new
/// block that the module lacks leaves as many, and leads nowhere.
pub proof fn lemma_visit_new_block(
    module: ModuleView,
    block: BlockIdView,
    visited: Seq<BlockIdView>,
)
    requires
        module.blocks.dom().finite(),
        !visited.contains(block),
    ensures
        module.blocks.contains_key(block) ==> unvisited(module, visited.push(block)).len()
            < unvisited(module, visited).len(),
        !module.blocks.contains_key(block) ==> unvisited(module, visited.push(block)).len()
            == unvisited(module, visited).len() && connected_blocks(module, block).len() == 0,
{
    let before = unvisited(module, visited);
    let after = unvisited(module, visited.push(block));
    vstd::set_lib::lemma_len_difference(module.blocks.dom(), visited.to_set());
    assert forall|other: BlockIdView| after.contains(other) == before.remove(block).contains(
        other,
    ) by {
        if visited.contains(other) {
            let i = choose|i: int| 0 <= i < visited.len() && visited[i] == other;
            assert(visited.push(block)[i] == other);
        }
        if other == block {
            assert(visited.push(block)[visited.len() as int] == block);
        }
    }
    assert(after =~= before.remove(block));
    if !module.blocks.contains_key(block) {
        assert(before.remove(block) =~= before);
    }
}

/// The blocks of a function in the order of execution: those reached from its
/// entry, depth first in the order in which each block names the blocks it
/// leads to, each where it is reached first.
pub open spec fn related_blocks(module: ModuleView, function: FunctionView) -> Seq<BlockIdView> {
    visit(module, seq![function.entry], Seq::empty())
}

/// Whether every block that a visited block leads to is visited or pending.
pub open spec fn leads_within(
    module: ModuleView,
    pending: Seq<BlockIdView>,
    visited: Seq<BlockIdView>,
) -> bool {
    forall|i: int, j: int|
        0 <= i < visited.len() && 0 <= j < connected_blocks(module, visited[i]).len() ==> {
            let next = #[trigger] connected_blocks(module, visited[i])[j];
            visited.contains(next) || pending.contains(next)
        }
}

/// A walk goes on from the blocks visited so far, which stay first and in
/// their order. It visits no block twice, it visits every pending block, and
/// in the end every block that a visited block leads to is visited too.
pub proof fn lemma_visit(module: ModuleView, pending: Seq<BlockIdView>, visited: Seq<BlockIdView>)
    requires
        module.blocks.dom().finite(),
        visited.no_duplicates(),
        leads_within(module, pending, visited),
    ensures
        visited.len() <= visit(module, pending, visited).len(),
        forall|i: int|
            0 <= i < visited.len() ==> visit(module, pending, visited)[i] == #[trigger] visited[i],
        visit(module, pending, visited).no_duplicates(),
        forall|i: int|
            0 <= i < pending.len() ==> visit(module, pending, visited).contains(
                #[trigger] pending[i],
            ),
        leads_within(module, Seq::empty(), visit(module, pending, visited)),
    decreases unvisited(module, visited).len(), pending.len(),
{
    let result = visit(module, pending, visited);
    if pending.len() == 0 {
        assert forall|i: int, j: int|
            0 <= i < visited.len() && 0 <= j < connected_blocks(module, visited[i]).len() implies {
            let next = #[trigger] connected_blocks(module, visited[i])[j];
            visited.contains(next) || Seq::<BlockIdView>::empty().contains(next)
        } by {
            let next = connected_blocks(module, visited[i])[j];
            assert(visited.contains(next) || pending.contains(next));
        }
    } else {
        let last = pending.last();
        let rest = pending.drop_last();
        if visited.contains(last) {
            assert forall|i: int, j: int|
                0 <= i < visited.len() && 0 <= j < connected_blocks(
                    module,
                    visited[i],
                ).len() implies {
                let next = #[trigger] connected_blocks(module, visited[i])[j];
                visited.contains(next) || rest.contains(next)
            } by {
                let next = connected_blocks(module, visited[i])[j];
                if !visited.contains(next) {
                    assert(pending.contains(next));
                    let k = choose|k: int| 0 <= k < pending.len() && pending[k] == next;
                    assert(rest[k] == next);
                }
            }
            lemma_visit(module, rest, visited);
            assert forall|i: int| 0 <= i < pending.len() implies result.contains(
                #[trigger] pending[i],
            ) by {
                if i < rest.len() {
                    assert(rest[i] == pending[i]);
                } else {
                    let k = choose|k: int| 0 <= k < visited.len() && visited[k] == last;
                    assert(result[k] == last);
                }
            }
        } else {
            lemma_visit_new_block(module, last, visited);
            let successors = connected_blocks(module, last);
            let next_pending = rest + successors.reverse();
            let next_visited = visited.push(last);
            assert(next_visited.no_duplicates()) by {
                assert forall|a: int, b: int|
                    0 <= a < next_visited.len() && 0 <= b < next_visited.len() && a
                        != b implies next_visited[a] != next_visited[b] by {
                    if a < visited.len() && b < visited.len() {
                        assert(visited[a] != visited[b]);
                    } else if a < visited.len() {
                        assert(visited[a] != last);
                    } else {
                        assert(visited[b] != last);
                    }
                }
            }
            assert forall|i: int, j: int|
                0 <= i < next_visited.len() && 0 <= j < connected_blocks(
                    module,
                    next_visited[i],
                ).len() implies {
                let next = #[trigger] connected_blocks(module, next_visited[i])[j];
                next_visited.contains(next) || next_pending.contains(next)
            } by {
                let next = connected_blocks(module, next_visited[i])[j];
                if i == visited.len() {
                    let n = successors.len() as int;
                    assert(successors.reverse()[n - 1 - j] == next);
                    assert(next_pending[rest.len() + n - 1 - j] == next);
                } else {
                    assert(next_visited[i] == visited[i]);
                    let same = connected_blocks(module, visited[i])[j];
                    assert(visited.contains(same) || pending.contains(same));
                    if visited.contains(next) {
                        let k = choose|k: int| 0 <= k < visited.len() && visited[k] == next;
                        assert(next_visited[k] == next);
                    } else {
                        let k = choose|k: int| 0 <= k < pending.len() && pending[k] == next;
                        if k == pending.len() - 1 {
                            assert(next_visited[visited.len() as int] == next);
                        } else {
                            assert(next_pending[k] == next);
                        }
                    }
                }
            }
            lemma_visit(module, next_pending, next_visited);
            assert forall|i: int| 0 <= i < visited.len() implies result[i]
                == #[trigger] visited[i] by {
                assert(next_visited[i] == visited[i]);
            }
            assert forall|i: int| 0 <= i < pending.len() implies result.contains(
                #[trigger] pending[i],
            ) by {
                if i < rest.len() {
                    assert(next_pending[i] == pending[i]);
                } else {
                    assert(next_visited[visited.len() as int] == last);
                    assert(result[visited.len() as int] == last);
                }
            }
        }
    }
}

/// The blocks of a function start with its entry, hold no block twice, and
/// hold every block that one of them leads to.
pub proof fn lemma_related_blocks(module: ModuleView, function: FunctionView)
    requires
        module.blocks.dom().finite(),
    ensures
        related_blocks(module, function).len() > 0,
        related_blocks(module, function)[0] == function.entry,
        related_blocks(module, function).no_duplicates(),
        leads_within(module, Seq::empty(), related_blocks(module, function)),
{
    let pending = seq![function.entry];
    let visited = Seq::<BlockIdView>::empty();
    lemma_visit(module, pending, visited);
    assert(pending[0] == function.entry);
    let result = related_blocks(module, function);
    assert(result.contains(function.entry));
    // The entry is the first block: the first step of the walk visits it.
    assert(!visited.contains(function.entry));
    lemma_visit_new_block(module, function.entry, visited);
    let next_pending = pending.drop_last() + connected_blocks(module, function.entry).reverse();
    let next_visited = visited.push(function.entry);
    assert(result == visit(module, next_pending, next_visited));
    assert(next_visited.no_duplicates());
    assert forall|i: int, j: int|
        0 <= i < next_visited.len() && 0 <= j < connected_blocks(
            module,
            next_visited[i],
        ).len() implies {
        let next = #[trigger] connected_blocks(module, next_visited[i])[j];
        next_visited.contains(next) || next_pending.contains(next)
    } by {
        let successors = connected_blocks(module, function.entry);
        let n = successors.len() as int;
        assert(successors.reverse()[n - 1 - j] == successors[j]);
        assert(next_pending[n - 1 - j] == successors[j]);
    }
    lemma_visit(module, next_pending, next_visited);
    assert(next_visited[0] == function.entry);
}

/// Where the entry of a function leads nowhere, the entry is the only block
/// of the function.
pub proof fn lemma_entry_alone(module: ModuleView, function: FunctionView)
    requires
        module.blocks.dom().finite(),
        connected_blocks(module, function.entry).len() == 0,
    ensures
        related_blocks(module, function) == seq![function.entry],
{
    let pending = seq![function.entry];
    let visited = Seq::<BlockIdView>::empty();
    assert(pending.last() == function.entry);
    assert(!visited.contains(function.entry));
    assert(pending.drop_last() + connected_blocks(module, function.entry).reverse()
        =~= Seq::<BlockIdView>::empty());
    assert(visited.push(function.entry) =~= seq![function.entry]);
    assert(visit(module, pending, visited) == visit(
        module,
        Seq::<BlockIdView>::empty(),
        seq![function.entry],
    ));
}

/// So far no instruction names a block, so no block leads to another, and
/// the blocks of a function are its entry alone.
pub proof fn lemma_only_the_entry(module: ModuleView, function: FunctionView)
    requires
        module.blocks.dom().finite(),
    ensures
        forall|block: BlockIdView| #[trigger] connected_blocks(module, block).len() == 0,
        related_blocks(module, function) == seq![function.entry],
{
    reveal(InstructionView::targets);
    lemma_entry_alone(module, function);
}

impl Module {
    /// A module holds finitely many blocks.
    pub proof fn lemma_finite(&self)
        ensures
            self@.blocks.dom().finite(),
    {
        self.blocks.lemma_finite();
        assert(self@.blocks.dom() =~= self.blocks@.dom());
    }
}

impl Instruction {
    /// The blocks that the instruction hands control to, in the order in
    /// which it names them.
    pub fn targets(&self) -> (blocks: Vec<BlockId>)
        ensures
            utils::block_ids_view(blocks@) == self@.targets(),
    {
        reveal(InstructionView::targets);
        let blocks: Vec<BlockId> = match self {
            Instruction::Return { .. } => Vec::new(),
            Instruction::Alloca { .. } => Vec::new(),
            Instruction::Load { .. } => Vec::new(),
            Instruction::Store { .. } => Vec::new(),
        };
        assert(utils::block_ids_view(blocks@) =~= Seq::empty());
        blocks
    }
}

/// The textual form of an argument: `<id>: <ty>`.
pub open spec fn argument_text(argument: (TempVarIdView, Type)) -> Seq<char> {
    argument.0.text() + ": "@ + type_text(argument.1)
}

/// The textual form of a list of arguments: each argument, with `, ` between two.
pub open spec fn arguments_text(arguments: Seq<(TempVarIdView, Type)>) -> Seq<char>
    decreases arguments.len(),
{
    if arguments.len() == 0 {
        Seq::empty()
    } else if arguments.len() == 1 {
        argument_text(arguments[0])
    } else {
        arguments_text(arguments.drop_last()) + ", "@ + argument_text(arguments.last())
    }
}

/// The textual form of the blocks: for each, its label, `:` and its instructions.
pub open spec fn labelled_blocks_text(blocks: Seq<BlockIdView>, module: ModuleView) -> Seq<char>
    decreases blocks.len(),
{
    if blocks.len() == 0 {
        Seq::empty()
    } else {
        labelled_blocks_text(blocks.drop_last(), module) + blocks.last().text() + ":\n"@
            + block_text(module.blocks[blocks.last()])
    }
}

/// The textual form of a function:
///
/// ```text
/// fn <return_ty> <signature> (<id>: <ty>, ...) {
/// @<block_label>:
///     <instruction>
/// }
/// ```
pub open spec fn function_text(function: FunctionView, module: ModuleView) -> Seq<char> {
    "fn "@ + type_text(function.return_ty) + " "@ + function.signature + " ("@ + arguments_text(
        function.arguments,
    ) + ") {\n"@ + labelled_blocks_text(related_blocks(module, function), module) + "}\n"@
}

/// Whether the function has a textual form in the module: its blocks are in
/// the module, and their instructions have a textual form.
pub open spec fn function_has_text(function: FunctionView, module: ModuleView) -> bool {
    forall|i: int|
        0 <= i < related_blocks(module, function).len() ==> {
            let block = #[trigger] related_blocks(module, function)[i];
            module.blocks.contains_key(block) && block_has_text(module.blocks[block])
        }
}

/// The textual form of the functions, one after the other.
pub open spec fn functions_text(functions: Seq<FunctionView>, module: ModuleView) -> Seq<char>
    decreases functions.len(),
{
    if functions.len() == 0 {
        Seq::empty()
    } else {
        functions_text(functions.drop_last(), module) + function_text(functions.last(), module)
    }
}

/// The textual form of a module: `module <name>` and its functions.
pub open spec fn module_text(module: ModuleView) -> Seq<char> {
    "module "@ + module.name + "\n"@ + functions_text(module.functions, module)
}

/// Whether the module has a textual form: each of its functions has one.
pub open spec fn module_has_text(module: ModuleView) -> bool {
    forall|i: int|
        0 <= i < module.functions.len() ==> function_has_text(
            #[trigger] module.functions[i],
            module,
        )
}

impl InstructionView {
    /// Whether the instruction is the `alloca` that makes the temporary.
    pub open spec fn allocates(self, id: TempVarIdView) -> bool {
        match self {
            InstructionView::Alloca { dest, ty } => dest == id,
            _ => false,
        }
    }

    /// Whether the temporary occurs in an operand of the instruction.
    pub open spec fn uses(self, id: TempVarIdView) -> bool {
        match self {
            InstructionView::Return { value: Some(OperandView::TempVar { ty, id: used }) } => used
                == id,
            InstructionView::Store { dest, src: OperandView::TempVar { ty, id: used } } => used
                == id,
            _ => false,
        }
    }
}

impl FunctionView {
    /// Whether the temporary is an argument of the function.
    pub open spec fn has_argument(self, id: TempVarIdView) -> bool {
        exists|i: int| 0 <= i < self.arguments.len() && (#[trigger] self.arguments[i]).0 == id
    }
}

/// Whether an `alloca` before instruction `index` of the block makes the temporary.
pub open spec fn is_allocated_before(
    block: Seq<InstructionView>,
    index: int,
    id: TempVarIdView,
) -> bool {
    exists|j: int|
        0 <= j < index && j < block.len() && (#[trigger] block[j]).allocates(id)
}

/// Whether the entry block of the function is in the module, and every
/// temporary in an operand of one of its instructions is an argument of the
/// function or made by an `alloca` earlier in the block.
pub open spec fn has_defined_operands(function: FunctionView, module: ModuleView) -> bool {
    &&& module.blocks.contains_key(function.entry)
    &&& forall|i: int, id: TempVarIdView|
        0 <= i < module.blocks[function.entry].len() && (
        #[trigger] module.blocks[function.entry][i].uses(id)) ==> function.has_argument(id)
            || is_allocated_before(module.blocks[function.entry], i, id)
}

/// Whether every function of the module has its entry block in the module
/// and uses only temporaries that are defined where they are used.
pub open spec fn is_closed_module(module: ModuleView) -> bool {
    forall|i: int|
        0 <= i < module.functions.len() ==> has_defined_operands(
            #[trigger] module.functions[i],
            module,
        )
}

/// The textual form of a module is a function of its value: two modules of one
/// value are printed alike.
pub proof fn lemma_text_is_deterministic(first: Module, second: Module)
    requires
        first@ == second@,
    ensures
        module_text(first@) == module_text(second@),
{
}

impl Function {
    /// Appends the arguments in their textual form to the text.
    fn write_arguments(&self, text: &mut String)
        ensures
            final(text)@ == old(text)@ + arguments_text(self@.arguments),
    {
        let ghost all = self@.arguments;
        let mut i: usize = 0;
        assert(all.take(0) =~= Seq::empty());
        assert(text@ =~= old(text)@ + arguments_text(all.take(0)));
        while i < self.arguments.len()
            invariant
                i <= self.arguments@.len(),
                all == self@.arguments,
                all.len() == self.arguments@.len(),
                text@ == old(text)@ + arguments_text(all.take(i as int)),
            decreases self.arguments@.len() - i,
        {
            if i > 0 {
                text.append(", ");
            }
            self.arguments[i].0.write(text);
            text.append(": ");
            self.arguments[i].1.write(text);
            proof {
                assert(all.take(i + 1).drop_last() =~= all.take(i as int));
                assert(all.take(i + 1).last() == all[i as int]);
                assert(all[i as int] == (
                    self.arguments@[i as int].0@,
                    self.arguments@[i as int].1,
                ));
                if i == 0 {
                    assert(all.take(1)[0] == all[0]);
                }
                assert(text@ =~= old(text)@ + arguments_text(all.take(i + 1)));
            }
            i += 1;
        }
        assert(all.take(i as int) =~= all);
    }

    /// Appends the textual form of the function in the module to the text.
    pub fn write(&self, module: &Module, text: &mut String)
        requires
            function_has_text(self@, module@),
        ensures
            final(text)@ == old(text)@ + function_text(self@, module@),
    {
        text.append("fn ");
        self.return_ty.write(text);
        text.append(" ");
        text.append(ascii_as_str(&self.signature));
        text.append(" (");
        self.write_arguments(text);
        text.append(") {\n");
        let ghost head = text@;
        let blocks = utils::get_related_blocks(module, self);
        let ghost ids = related_blocks(module@, self@);
        let mut i: usize = 0;
        assert(ids.take(0) =~= Seq::empty());
        assert(text@ =~= head + labelled_blocks_text(ids.take(0), module@));
        while i < blocks.len()
            invariant
                i <= blocks@.len(),
                ids == related_blocks(module@, self@),
                ids == utils::block_ids_view(blocks@),
                function_has_text(self@, module@),
                text@ == head + labelled_blocks_text(ids.take(i as int), module@),
            decreases blocks@.len() - i,
        {
            proof {
                assert(ids[i as int] == blocks@[i as int]@);
                assert(module@.blocks.contains_key(ids[i as int]));
                assert(block_has_text(module@.blocks[ids[i as int]]));
                assert(module.blocks@.contains_key(blocks@[i as int]@));
            }
            match module.blocks.get(&blocks[i]) {
                Some(block) => {
                    blocks[i].write(text);
                    text.append(":\n");
                    block.write(text);
                },
                None => {},
            }
            proof {
                assert(ids.take(i + 1).drop_last() =~= ids.take(i as int));
                assert(ids.take(i + 1).last() == ids[i as int]);
                assert(text@ =~= head + labelled_blocks_text(ids.take(i + 1), module@));
            }
            i += 1;
        }
        assert(ids.take(i as int) =~= ids);
        text.append("}\n");
        assert(text@ =~= old(text)@ + function_text(self@, module@));
    }

    /// The textual form of the function in the module.
    pub fn to_string(&self, module: &Module) -> (text: String)
        requires
            function_has_text(self@, module@),
        ensures
            text@ == function_text(self@, module@),
    {
        let mut text = String::new();
        self.write(module, &mut text);
        assert(text@ =~= function_text(self@, module@));
        text
    }
}

impl Module {
    /// Whether the module has a textual form.
    pub fn has_text(&self) -> (printable: bool)
        ensures
            printable == module_has_text(self@),
    {
        let mut i: usize = 0;
        while i < self.functions.len()
            invariant
                i <= self.functions@.len(),
                forall|j: int|
                    0 <= j < i ==> function_has_text(#[trigger] self@.functions[j], self@),
            decreases self.functions@.len() - i,
        {
            let ghost function = self@.functions[i as int];
            assert(function == self.functions@[i as int]@);
            let blocks = utils::get_related_blocks(self, &self.functions[i]);
            let ghost ids = related_blocks(self@, function);
            let mut k: usize = 0;
            while k < blocks.len()
                invariant
                    k <= blocks@.len(),
                    i < self.functions@.len(),
                    function == self@.functions[i as int],
                    ids == related_blocks(self@, function),
                    ids == utils::block_ids_view(blocks@),
                    forall|j: int|
                        0 <= j < k ==> self@.blocks.contains_key(#[trigger] ids[j])
                            && block_has_text(self@.blocks[ids[j]]),
                decreases blocks@.len() - k,
            {
                assert(ids[k as int] == blocks@[k as int]@);
                let printable = match self.blocks.get(&blocks[k]) {
                    Some(block) => block.has_text(),
                    None => false,
                };
                if !printable {
                    assert(!function_has_text(function, self@));
                    return false;
                }
                k += 1;
            }
            assert(function_has_text(function, self@));
            i += 1;
        }
        true
    }

    /// The textual form of the module.
    pub fn to_string(&self) -> (text: String)
        requires
            module_has_text(self@),
        ensures
            text@ == module_text(self@),
    {
        let mut text = String::new();
        text.append("module ");
        text.append(ascii_as_str(&self.name));
        text.append("\n");
        let ghost head = text@;
        let ghost all = self@.functions;
        let mut i: usize = 0;
        assert(all.take(0) =~= Seq::empty());
        assert(text@ =~= head + functions_text(all.take(0), self@));
        while i < self.functions.len()
            invariant
                i <= self.functions@.len(),
                all == self@.functions,
                all.len() == self.functions@.len(),
                module_has_text(self@),
                text@ == head + functions_text(all.take(i as int), self@),
            decreases self.functions@.len() - i,
        {
            proof {
                assert(all[i as int] == self.functions@[i as int]@);
                assert(function_has_text(all[i as int], self@));
            }
            self.functions[i].write(self, &mut text);
            proof {
                assert(all.take(i + 1).drop_last() =~= all.take(i as int));
                assert(all.take(i + 1).last() == all[i as int]);
                assert(text@ =~= head + functions_text(all.take(i + 1), self@));
            }
            i += 1;
        }
        assert(all.take(i as int) =~= all);
        assert(text@ =~= module_text(self@));
        text
    }
}

} // verus!
