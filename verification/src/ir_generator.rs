//! The IR generator: from a typed syntax tree to an RXIR module.

use vstd::prelude::*;
use vstd::string::StringExecFnsIsAscii;
use vstd::utf8::is_ascii_chars;

use crate::ast::{
    arguments_view, ast_view, unit_type, Block, Expr, ExprKind, ExprKindView,
    ExprView, FunctionDef, FunctionDefView, Literal, NumberKind, NumberType, TopLevel,
    TopLevelKind, TopLevelKindView, TopLevelView, Type as AstType, TypeView,
};
use crate::rxir::builder::ModuleBuilder;
use crate::rxir::names::{ascii_from_str};
use crate::rxir::{
    block_has_text, function_has_text, has_defined_operands, ir_arguments_view, is_closed_module,
    lemma_only_the_entry, module_has_text, BlockId, BlockIdView, FunctionView, Instruction,
    InstructionView, Module, ModuleView, Operand, OperandView, TempVarId, TempVarIdView, Type,
};
use crate::table::Table;

verus! {

/// Whether the type has an RXIR type: the unit type and `i32` have one.
pub open spec fn is_ir_type(ty: TypeView) -> bool {
    ty == unit_type() || ty == TypeView::Number(
        NumberType { kind: NumberKind::Signed, bits: 32 },
    )
}

/// The RXIR type of a type: `void` for the unit type, `i32` for `i32`.
pub open spec fn ir_type(ty: TypeView) -> Type {
    if ty == unit_type() {
        Type::Void
    } else {
        Type::Signed32
    }
}

/// The temporary that the builder makes for argument `index` of a function
/// whose entry block got the number `entry`.
pub open spec fn argument_id(entry: nat, index: int) -> TempVarIdView {
    TempVarIdView::Generated((entry + 1 + index) as usize)
}

/// The arguments of a function in RXIR: a temporary for each, with its type.
pub open spec fn lower_arguments(arguments: Seq<(Seq<char>, TypeView)>, entry: nat) -> Seq<
    (TempVarIdView, Type),
> {
    Seq::new(arguments.len(), |i: int| (argument_id(entry, i), ir_type(arguments[i].1)))
}

/// The temporary of each argument name. Of two arguments with one name, the later one counts.
pub open spec fn argument_names(arguments: Seq<(Seq<char>, TypeView)>, entry: nat) -> Map<
    Seq<char>,
    TempVarIdView,
>
    decreases arguments.len(),
{
    if arguments.len() == 0 {
        Map::empty()
    } else {
        argument_names(arguments.drop_last(), entry).insert(
            arguments.last().0,
            argument_id(entry, arguments.len() - 1),
        )
    }
}

/// The type of each temporary that stands for an argument.
pub open spec fn argument_types(arguments: Seq<(Seq<char>, TypeView)>, entry: nat) -> Map<
    TempVarIdView,
    Type,
>
    decreases arguments.len(),
{
    if arguments.len() == 0 {
        Map::empty()
    } else {
        argument_types(arguments.drop_last(), entry).insert(
            argument_id(entry, arguments.len() - 1),
            ir_type(arguments.last().1),
        )
    }
}

/// Whether an argument has the name.
pub open spec fn is_argument(arguments: Seq<(Seq<char>, TypeView)>, name: Seq<char>) -> bool {
    exists|i: int| 0 <= i < arguments.len() && (#[trigger] arguments[i]).0 == name
}

/// Whether the statement can be lowered: it is a `return` without a value, of
/// an `i32` literal, or of an argument.
pub open spec fn can_lower_statement(
    statement: ExprView,
    arguments: Seq<(Seq<char>, TypeView)>,
) -> bool {
    match statement.kind {
        ExprKindView::Return(None) => true,
        ExprKindView::Return(Some(inner)) => match inner.kind {
            ExprKindView::Literal(Literal::Number(number)) => is_ir_type(
                TypeView::Number(number.kind),
            ),
            ExprKindView::Variable(name) => is_argument(arguments, name),
            _ => false,
        },
        _ => false,
    }
}

/// The instruction that a statement becomes: a `return` of nothing, of a
/// constant with its type, or of the temporary of an argument with its type.
pub open spec fn lower_statement(
    statement: ExprView,
    names: Map<Seq<char>, TempVarIdView>,
    types: Map<TempVarIdView, Type>,
) -> InstructionView {
    match statement.kind {
        ExprKindView::Return(Some(inner)) => match inner.kind {
            ExprKindView::Literal(Literal::Number(number)) => InstructionView::Return {
                value: Some(
                    OperandView::Immediate {
                        ty: ir_type(TypeView::Number(number.kind)),
                        value: number.value,
                    },
                ),
            },
            ExprKindView::Variable(name) => InstructionView::Return {
                value: Some(OperandView::TempVar { ty: types[names[name]], id: names[name] }),
            },
            _ => InstructionView::Return { value: None },
        },
        _ => InstructionView::Return { value: None },
    }
}

/// Whether the function can be lowered: its name is ASCII, it declares a
/// return type, every type it names has an RXIR type, and every statement can
/// be lowered.
pub open spec fn can_lower_function(def: FunctionDefView) -> bool {
    &&& is_ascii_chars(def.name)
    &&& def.return_ty matches Some(ty) && is_ir_type(ty)
    &&& forall|i: int| 0 <= i < def.arguments.len() ==> is_ir_type((#[trigger] def.arguments[i]).1)
    &&& forall|i: int|
        0 <= i < def.body.statements.len() ==> can_lower_statement(
            #[trigger] def.body.statements[i],
            def.arguments,
        )
}

/// The function in RXIR, where its entry block gets the number `entry`.
pub open spec fn lower_function(def: FunctionDefView, entry: nat) -> FunctionView {
    FunctionView {
        signature: def.name,
        arguments: lower_arguments(def.arguments, entry),
        entry: BlockIdView::Generated(entry as usize),
        return_ty: ir_type(def.return_ty->0),
    }
}

/// The entry block of the function in RXIR: an instruction for each statement.
pub open spec fn lower_body(def: FunctionDefView, entry: nat) -> Seq<InstructionView> {
    Seq::new(
        def.body.statements.len(),
        |i: int|
            lower_statement(
                def.body.statements[i],
                argument_names(def.arguments, entry),
                argument_types(def.arguments, entry),
            ),
    )
}

/// The function definition that a top level holds.
pub open spec fn function_of(top: TopLevelView) -> FunctionDefView {
    match top.kind {
        TopLevelKindView::Expr(expr) => expr.kind->FunctionDef_0,
    }
}

/// Whether the top level is a function definition.
pub open spec fn holds_function(top: TopLevelView) -> bool {
    match top.kind {
        TopLevelKindView::Expr(expr) => expr.kind is FunctionDef,
    }
}

/// How many ids the functions take: one for the entry block of each, and one for each argument.
pub open spec fn ids_taken(program: Seq<TopLevelView>) -> nat
    decreases program.len(),
{
    if program.len() == 0 {
        0
    } else {
        ids_taken(program.drop_last()) + 1 + function_of(program.last()).arguments.len()
    }
}

/// The functions of the program in RXIR, in order.
pub open spec fn lower_functions(program: Seq<TopLevelView>) -> Seq<FunctionView> {
    Seq::new(
        program.len(),
        |i: int| lower_function(function_of(program[i]), ids_taken(program.take(i))),
    )
}

/// The blocks of the program in RXIR: the entry block of each function.
pub open spec fn lower_blocks(program: Seq<TopLevelView>) -> Map<
    BlockIdView,
    Seq<InstructionView>,
>
    decreases program.len(),
{
    if program.len() == 0 {
        Map::empty()
    } else {
        let entry = ids_taken(program.drop_last());
        lower_blocks(program.drop_last()).insert(
            BlockIdView::Generated(entry as usize),
            lower_body(function_of(program.last()), entry),
        )
    }
}

/// Whether the program can be lowered into a module of the name: the name is
/// ASCII, every top level is a function that can be lowered, and the ids
/// that the functions take can be counted.
pub open spec fn can_lower(name: Seq<char>, program: Seq<TopLevelView>) -> bool {
    &&& is_ascii_chars(name)
    &&& ids_taken(program) <= usize::MAX
    &&& forall|i: int|
        0 <= i < program.len() ==> holds_function(#[trigger] program[i]) && can_lower_function(
            function_of(program[i]),
        )
}

/// The module that the program becomes.
pub open spec fn lower_program(name: Seq<char>, program: Seq<TopLevelView>) -> ModuleView {
    ModuleView {
        name,
        blocks: lower_blocks(program),
        functions: lower_functions(program),
    }
}

/// The module that is generated for a program under the name: none where the
/// program cannot be lowered.
pub open spec fn generated(name: Seq<char>, program: Seq<TopLevelView>) -> Option<ModuleView> {
    if can_lower(name, program) {
        Some(lower_program(name, program))
    } else {
        None
    }
}

/// Every argument name has a temporary, and every such temporary has a type.
pub proof fn lemma_argument_names(arguments: Seq<(Seq<char>, TypeView)>, entry: nat)
    ensures
        forall|name: Seq<char>|
            argument_names(arguments, entry).contains_key(name) <==> is_argument(arguments, name),
        forall|name: Seq<char>| #[trigger]
            argument_names(arguments, entry).contains_key(name) ==> {
                &&& argument_types(arguments, entry).contains_key(
                    argument_names(arguments, entry)[name],
                )
                &&& exists|i: int|
                    0 <= i < arguments.len() && argument_names(arguments, entry)[name]
                        == #[trigger] argument_id(entry, i)
            },
    decreases arguments.len(),
{
    if arguments.len() > 0 {
        let rest = arguments.drop_last();
        let last = arguments.len() - 1;
        lemma_argument_names(rest, entry);
        assert forall|name: Seq<char>|
            argument_names(arguments, entry).contains_key(name) <==> is_argument(
                arguments,
                name,
            ) by {
            if is_argument(arguments, name) {
                let i = choose|i: int|
                    0 <= i < arguments.len() && (#[trigger] arguments[i]).0 == name;
                if i < last {
                    assert(rest[i].0 == name);
                    assert(is_argument(rest, name));
                }
            }
            if argument_names(arguments, entry).contains_key(name) {
                if name == arguments.last().0 {
                    assert(arguments[last].0 == name);
                } else {
                    assert(is_argument(rest, name));
                    let i = choose|i: int| 0 <= i < rest.len() && (#[trigger] rest[i]).0 == name;
                    assert(arguments[i].0 == name);
                }
            }
        }
        assert forall|name: Seq<char>| #[trigger]
            argument_names(arguments, entry).contains_key(name) implies {
            &&& argument_types(arguments, entry).contains_key(
                argument_names(arguments, entry)[name],
            )
            &&& exists|i: int|
                0 <= i < arguments.len() && argument_names(arguments, entry)[name]
                    == #[trigger] argument_id(entry, i)
        } by {
            if name == arguments.last().0 {
                assert(argument_names(arguments, entry)[name] == argument_id(entry, last));
            } else {
                assert(argument_names(rest, entry).contains_key(name));
                let i = choose|i: int|
                    0 <= i < rest.len() && argument_names(rest, entry)[name]
                        == #[trigger] argument_id(entry, i);
                assert(argument_names(arguments, entry)[name] == argument_id(entry, i));
            }
        }
    }
}

/// Longer programs take more ids.
pub proof fn lemma_ids_taken_grow(program: Seq<TopLevelView>, count: int)
    requires
        0 <= count <= program.len(),
    ensures
        ids_taken(program.take(count)) <= ids_taken(program),
        count < program.len() ==> ids_taken(program.take(count + 1)) == ids_taken(
            program.take(count),
        ) + 1 + function_of(program[count]).arguments.len(),
    decreases program.len() - count,
{
    if count < program.len() {
        assert(program.take(count + 1).drop_last() =~= program.take(count));
        assert(program.take(count + 1).last() == program[count]);
        lemma_ids_taken_grow(program, count + 1);
    } else {
        assert(program.take(count) =~= program);
    }
}

/// The entry block of function `index` of the program holds the instructions
/// of its body: no later function takes the number of the block.
pub proof fn lemma_lowered_block(program: Seq<TopLevelView>, index: int)
    requires
        0 <= index < program.len(),
        ids_taken(program) <= usize::MAX,
    ensures
        lower_blocks(program).contains_key(
            BlockIdView::Generated(ids_taken(program.take(index)) as usize),
        ),
        lower_blocks(program)[BlockIdView::Generated(ids_taken(program.take(index)) as usize)]
            == lower_body(function_of(program[index]), ids_taken(program.take(index))),
    decreases program.len(),
{
    let last = program.len() - 1;
    lemma_ids_taken_grow(program, last);
    assert(program.take(last) =~= program.drop_last());
    if index < last {
        let rest = program.drop_last();
        assert(rest.take(index) =~= program.take(index));
        lemma_lowered_block(rest, index);
        lemma_ids_taken_grow(rest, index);
        lemma_ids_taken_grow(rest, index + 1);
    }
}

/// Every block of a lowered program holds `return` instructions only.
pub proof fn lemma_lowered_blocks_have_text(program: Seq<TopLevelView>)
    ensures
        forall|block: BlockIdView| #[trigger]
            lower_blocks(program).contains_key(block) ==> block_has_text(
                lower_blocks(program)[block],
            ),
    decreases program.len(),
{
    if program.len() > 0 {
        lemma_lowered_blocks_have_text(program.drop_last());
        let entry = ids_taken(program.drop_last());
        let body = lower_body(function_of(program.last()), entry);
        assert forall|i: int| 0 <= i < body.len() implies (#[trigger] body[i]).has_text() by {}
        assert(block_has_text(body));
        assert forall|block: BlockIdView| #[trigger]
            lower_blocks(program).contains_key(block) implies block_has_text(
            lower_blocks(program)[block],
        ) by {
            if block != BlockIdView::Generated(entry as usize) {
                assert(lower_blocks(program.drop_last()).contains_key(block));
            }
        }
    } else {
        assert forall|block: BlockIdView| #[trigger]
            lower_blocks(program).contains_key(block) implies block_has_text(
            lower_blocks(program)[block],
        ) by {}
    }
}

/// A program is lowered into finitely many blocks.
pub proof fn lemma_lowered_blocks_are_finite(program: Seq<TopLevelView>)
    ensures
        lower_blocks(program).dom().finite(),
    decreases program.len(),
{
    if program.len() > 0 {
        lemma_lowered_blocks_are_finite(program.drop_last());
    }
}

/// The module of a program that can be lowered has a textual form, and each of
/// its functions has its entry block in the module and returns only constants
/// and its own arguments.
pub proof fn lemma_lowered_module(name: Seq<char>, program: Seq<TopLevelView>)
    requires
        can_lower(name, program),
    ensures
        module_has_text(lower_program(name, program)),
        is_closed_module(lower_program(name, program)),
{
    let module = lower_program(name, program);
    lemma_lowered_blocks_have_text(program);
    assert forall|i: int| 0 <= i < module.functions.len() implies function_has_text(
        #[trigger] module.functions[i],
        module,
    ) && has_defined_operands(module.functions[i], module) by {
        let function = module.functions[i];
        let def = function_of(program[i]);
        let entry = ids_taken(program.take(i));
        lemma_lowered_block(program, i);
        lemma_lowered_blocks_are_finite(program);
        lemma_only_the_entry(module, function);
        let block = module.blocks[function.entry];
        assert(block == lower_body(def, entry));
        lemma_argument_names(def.arguments, entry);
        assert forall|k: int, id: TempVarIdView| 0 <= k < block.len() && #[trigger] block[k].uses(
            id,
        ) implies function.has_argument(id) by {
            let statement = def.body.statements[k];
            assert(can_lower_statement(statement, def.arguments));
            let names = argument_names(def.arguments, entry);
            match statement.kind {
                ExprKindView::Return(Some(inner)) => match inner.kind {
                    ExprKindView::Variable(variable) => {
                        assert(names.contains_key(variable));
                        let j = choose|j: int|
                            0 <= j < def.arguments.len() && names[variable]
                                == #[trigger] argument_id(entry, j);
                        assert(function.arguments[j].0 == id);
                    },
                    _ => {},
                },
                _ => {},
            }
        }
    }
}

/// Every generated module has a textual form, and every function of a
/// generated module has its entry block in the module and uses only temporaries
/// that are its arguments or were allocated earlier in the block.
pub proof fn lemma_generated_module(name: Seq<char>, program: Seq<TopLevelView>)
    ensures
        generated(name, program) matches Some(module) ==> module_has_text(module)
            && is_closed_module(module),
{
    if can_lower(name, program) {
        lemma_lowered_module(name, program);
    }
}

/// Whether the table of names holds the temporaries of the map, name by name.
pub open spec fn holds_names(
    variables: Map<Seq<char>, TempVarId>,
    names: Map<Seq<char>, TempVarIdView>,
) -> bool {
    &&& variables.dom() == names.dom()
    &&& forall|name: Seq<char>|
        variables.contains_key(name) ==> (#[trigger] variables[name])@ == names[name]
}

/// What the generator needs to know of a module.
pub struct ModuleOps {
    pub name: String,
}

/// The temporaries of the variables of a block, by name.
pub struct BlockMeta {
    pub variables: Table<String, TempVarId>,
}

impl BlockMeta {
    /// No variables.
    pub fn new() -> (meta: BlockMeta)
        ensures
            meta.variables@ == Map::<Seq<char>, TempVarId>::empty(),
    {
        BlockMeta { variables: Table::new() }
    }
}

/// The IR generator. It takes a program that has passed the type checker.
pub struct IrGenerator {}

impl IrGenerator {
    pub fn new() -> (generator: IrGenerator) {
        IrGenerator {  }
    }

    /// The RXIR type of a type.
    pub fn rxir_type(ty: &AstType) -> (lowered: Type)
        requires
            is_ir_type(ty@),
        ensures
            lowered == ir_type(ty@),
    {
        match ty {
            AstType::Tuple(types) => {
                assert(ty@->Tuple_0.len() == types@.len());
                Type::Void
            },
            AstType::Number(_) => Type::Signed32,
        }
    }

    /// Whether the type has an RXIR type.
    pub fn has_rxir_type(ty: &AstType) -> (lowerable: bool)
        ensures
            lowerable == is_ir_type(ty@),
    {
        match ty {
            AstType::Tuple(types) => {
                assert(ty@->Tuple_0.len() == types@.len());
                assert(types@.len() == 0 ==> ty@->Tuple_0 =~= Seq::empty());
                types.len() == 0
            },
            AstType::Number(number) => number.bits == 32 && match number.kind {
                NumberKind::Signed => true,
                _ => false,
            },
        }
    }

    /// Whether an argument of the function has the name.
    fn has_argument(function: &FunctionDef, name: &String) -> (found: bool)
        ensures
            found == is_argument(function@.arguments, name@),
    {
        let mut i: usize = 0;
        while i < function.arguments.len()
            invariant
                i <= function.arguments@.len(),
                function@.arguments.len() == function.arguments@.len(),
                forall|j: int| 0 <= j < i ==> (#[trigger] function@.arguments[j]).0 != name@,
            decreases function.arguments@.len() - i,
        {
            assert(function@.arguments[i as int].0 == function.arguments@[i as int].0@);
            if function.arguments[i].0 == *name {
                return true;
            }
            i += 1;
        }
        false
    }

    /// Whether the statement of the function can be lowered.
    fn can_generate_statement(function: &FunctionDef, statement: &Expr) -> (lowerable: bool)
        ensures
            lowerable == can_lower_statement(statement@, function@.arguments),
    {
        match &statement.kind {
            ExprKind::Return(Some(inner)) => {
                assert(statement@.kind == ExprKindView::Return(Some(Box::new(inner@))));
                match &inner.kind {
                    ExprKind::Literal(Literal::Number(number)) => {
                        assert(inner@.kind == ExprKindView::Literal(Literal::Number(*number)));
                        Self::has_rxir_type(&AstType::Number(number.kind))
                    },
                    ExprKind::Variable(name) => {
                        assert(inner@.kind == ExprKindView::Variable(name@));
                        Self::has_argument(function, name)
                    },
                    ExprKind::Return(_) => {
                        assert(inner@.kind is Return);
                        false
                    },
                    ExprKind::FunctionDef(_) => {
                        assert(inner@.kind is FunctionDef);
                        false
                    },
                }
            },
            ExprKind::Return(None) => {
                assert(statement@.kind == ExprKindView::Return(None));
                true
            },
            ExprKind::Literal(_) => {
                assert(statement@.kind is Literal);
                false
            },
            ExprKind::Variable(_) => {
                assert(statement@.kind is Variable);
                false
            },
            ExprKind::FunctionDef(_) => {
                assert(statement@.kind is FunctionDef);
                false
            },
        }
    }

    /// Whether the function can be lowered.
    fn can_generate_function(function: &FunctionDef) -> (lowerable: bool)
        ensures
            lowerable == can_lower_function(function@),
    {
        if !function.name.is_ascii() {
            return false;
        }
        match &function.return_ty {
            Some(ty) => {
                if !Self::has_rxir_type(ty) {
                    return false;
                }
            },
            None => {
                return false;
            },
        }
        let mut i: usize = 0;
        while i < function.arguments.len()
            invariant
                i <= function.arguments@.len(),
                function@.arguments.len() == function.arguments@.len(),
                forall|j: int| 0 <= j < i ==> is_ir_type((#[trigger] function@.arguments[j]).1),
            decreases function.arguments@.len() - i,
        {
            assert(function@.arguments[i as int].1 == function.arguments@[i as int].1@);
            if !Self::has_rxir_type(&function.arguments[i].1) {
                return false;
            }
            i += 1;
        }
        let mut k: usize = 0;
        while k < function.body.statements.len()
            invariant
                k <= function.body.statements@.len(),
                function@.body.statements.len() == function.body.statements@.len(),
                forall|j: int|
                    0 <= j < k ==> can_lower_statement(
                        #[trigger] function@.body.statements[j],
                        function@.arguments,
                    ),
            decreases function.body.statements@.len() - k,
        {
            assert(function@.body.statements[k as int] == function.body.statements@[k as int]@);
            if !Self::can_generate_statement(function, &function.body.statements[k]) {
                return false;
            }
            k += 1;
        }
        true
    }

    /// Whether the program can be lowered into a module of the name.
    pub fn can_generate(ops: &ModuleOps, ast: &Vec<TopLevel>) -> (lowerable: bool)
        ensures
            lowerable == can_lower(ops.name@, ast_view(ast@)),
    {
        let ghost program = ast_view(ast@);
        if !ops.name.is_ascii() {
            return false;
        }
        let mut ids: usize = 0;
        let mut i: usize = 0;
        assert(program.take(0) =~= Seq::empty());
        while i < ast.len()
            invariant
                i <= ast@.len(),
                program == ast_view(ast@),
                ids == ids_taken(program.take(i as int)),
                forall|j: int|
                    0 <= j < i ==> holds_function(#[trigger] program[j]) && can_lower_function(
                        function_of(program[j]),
                    ),
            decreases ast@.len() - i,
        {
            proof {
                assert(program[i as int] == ast@[i as int]@);
                lemma_ids_taken_grow(program, i as int);
                lemma_ids_taken_grow(program, i + 1);
            }
            match &ast[i].kind {
                TopLevelKind::Expr(expr) => {
                    assert(ast@[i as int]@.kind == TopLevelKindView::Expr(expr@));
                    match &expr.kind {
                        ExprKind::FunctionDef(function) => {
                            assert(expr@.kind == ExprKindView::FunctionDef(function@));
                            if !Self::can_generate_function(function) {
                                return false;
                            }
                            let taken = match ids.checked_add(1) {
                                Some(with_entry) => with_entry.checked_add(
                                    function.arguments.len(),
                                ),
                                None => None,
                            };
                            match taken {
                                Some(taken) => {
                                    ids = taken;
                                },
                                None => {
                                    return false;
                                },
                            }
                        },
                        ExprKind::Literal(_) => {
                            assert(expr@.kind is Literal);
                            return false;
                        },
                        ExprKind::Variable(_) => {
                            assert(expr@.kind is Variable);
                            return false;
                        },
                        ExprKind::Return(_) => {
                            assert(expr@.kind is Return);
                            return false;
                        },
                    }
                },
            }
            i += 1;
        }
        assert(program.take(i as int) =~= program);
        true
    }

    /// Lowers the program into a module of the name: a function for each
    /// function definition, entered at a block that holds an instruction for
    /// each statement.
    pub fn generate_module(&mut self, ops: ModuleOps, ast: Vec<TopLevel>) -> (module: Module)
        requires
            can_lower(ops.name@, ast_view(ast@)),
        ensures
            module@ == lower_program(ops.name@, ast_view(ast@)),
            module_has_text(module@),
            is_closed_module(module@),
    {
        proof {
            lemma_lowered_module(ops.name@, ast_view(ast@));
        }
        let ghost program = ast_view(ast@);
        let mut builder = ModuleBuilder::new();
        let mut i: usize = 0;
        proof {
            assert(program.take(0) =~= Seq::empty());
            assert(lower_functions(program.take(0)) =~= Seq::empty());
        }
        while i < ast.len()
            invariant
                i <= ast@.len(),
                program == ast_view(ast@),
                can_lower(ops.name@, program),
                builder.wf(),
                builder.counter() == ids_taken(program.take(i as int)),
                builder.blocks() == lower_blocks(program.take(i as int)),
                builder.functions() == lower_functions(program.take(i as int)),
            decreases ast@.len() - i,
        {
            proof {
                lemma_ids_taken_grow(program, i as int);
                lemma_ids_taken_grow(program, i + 1);
                assert(program[i as int] == ast@[i as int]@);
                assert(program.take(i + 1).drop_last() =~= program.take(i as int));
                assert(program.take(i + 1).last() == program[i as int]);
            }
            let ghost functions_before = builder.functions();
            self.generate_top_level(&mut builder, &ast[i]);
            proof {
                assert(builder.functions() =~= lower_functions(program.take(i + 1))) by {
                    assert forall|j: int| 0 <= j < i + 1 implies builder.functions()[j]
                        == lower_functions(program.take(i + 1))[j] by {
                        assert(program.take(i + 1).take(j) =~= program.take(j));
                        if j < i {
                            assert(program.take(i as int).take(j) =~= program.take(j));
                            assert(functions_before[j] == lower_functions(
                                program.take(i as int),
                            )[j]);
                        }
                    }
                }
            }
            i += 1;
        }
        assert(program.take(i as int) =~= program);
        let name = match ascii_from_str(ops.name.as_str()) {
            Ok(name) => name,
            Err(_) => vstd::pervasive::unreached(),
        };
        builder.build(name)
    }

    /// Lowers one function definition: makes its entry block, a temporary for
    /// each argument, records the function, and lowers its body into the block.
    fn generate_top_level(&mut self, builder: &mut ModuleBuilder, node: &TopLevel)
        requires
            holds_function(node@),
            can_lower_function(function_of(node@)),
            old(builder).wf(),
            old(builder).counter() + 1 + function_of(node@).arguments.len() <= usize::MAX,
        ensures
            final(builder).wf(),
            final(builder).counter() == old(builder).counter() + 1 + function_of(
                node@,
            ).arguments.len(),
            final(builder).blocks() == old(builder).blocks().insert(
                BlockIdView::Generated(old(builder).counter() as usize),
                lower_body(function_of(node@), old(builder).counter()),
            ),
            final(builder).functions() == old(builder).functions().push(
                lower_function(function_of(node@), old(builder).counter()),
            ),
    {
        match &node.kind {
            TopLevelKind::Expr(expr) => match &expr.kind {
                ExprKind::FunctionDef(function) => {
                    let ghost def = function@;
                    let ghost number = builder.counter();
                    proof {
                        assert(node@.kind == TopLevelKindView::Expr(expr@));
                        assert(expr@.kind == ExprKindView::FunctionDef(def));
                        assert(function_of(node@) == def);
                        assert(def.arguments == arguments_view(function.arguments@));
                    }
                    let entry = builder.create_block(None);
                    let mut block_meta = BlockMeta::new();
                    let mut arguments: Vec<(TempVarId, Type)> = Vec::new();
                    let mut i: usize = 0;
                    proof {
                        assert(def.arguments.take(0) =~= Seq::empty());
                        assert(ir_arguments_view(arguments@) =~= lower_arguments(
                            def.arguments.take(0),
                            number,
                        ));
                    }
                    while i < function.arguments.len()
                        invariant
                            i <= function.arguments@.len(),
                            def.arguments == arguments_view(function.arguments@),
                            can_lower_function(def),
                            number + 1 + def.arguments.len() <= usize::MAX,
                            entry@ == BlockIdView::Generated(number as usize),
                            builder.wf(),
                            builder.counter() == number + 1 + i,
                            builder.blocks() == old(builder).blocks().insert(entry@, Seq::empty()),
                            builder.functions() == old(builder).functions(),
                            builder.variables().contains_key(entry@),
                            builder.variables()[entry@] == argument_types(
                                def.arguments.take(i as int),
                                number,
                            ),
                            holds_names(
                                block_meta.variables@,
                                argument_names(def.arguments.take(i as int), number),
                            ),
                            ir_arguments_view(arguments@) == lower_arguments(
                                def.arguments.take(i as int),
                                number,
                            ),
                        decreases function.arguments@.len() - i,
                    {
                        let ghost before = ir_arguments_view(arguments@);
                        proof {
                            assert(def.arguments.take(i + 1).drop_last() =~= def.arguments.take(
                                i as int,
                            ));
                            assert(def.arguments.take(i + 1).last() == def.arguments[i as int]);
                            assert(def.arguments[i as int] == (
                                function.arguments@[i as int].0@,
                                function.arguments@[i as int].1@,
                            ));
                            assert(is_ir_type(def.arguments[i as int].1));
                        }
                        let ty = Self::rxir_type(&function.arguments[i].1);
                        let id = builder.create_value(&entry, ty.clone(), None);
                        block_meta.variables.insert(function.arguments[i].0.clone(), id.clone());
                        arguments.push((id, ty));
                        proof {
                            assert(id@ == argument_id(number, i as int));
                            assert(ir_arguments_view(arguments@) =~= before.push((id@, ty)));
                            assert(ir_arguments_view(arguments@) =~= lower_arguments(
                                def.arguments.take(i + 1),
                                number,
                            ));
                            assert(block_meta.variables@.dom() =~= argument_names(
                                def.arguments.take(i + 1),
                                number,
                            ).dom());
                        }
                        i += 1;
                    }
                    proof {
                        assert(def.arguments.take(i as int) =~= def.arguments);
                        lemma_argument_names(def.arguments, number);
                    }
                    let signature = match ascii_from_str(function.name.as_str()) {
                        Ok(signature) => signature,
                        Err(_) => vstd::pervasive::unreached(),
                    };
                    let return_ty = match &function.return_ty {
                        Some(ty) => Self::rxir_type(ty),
                        None => vstd::pervasive::unreached(),
                    };
                    builder.build_function(signature, arguments, return_ty, entry.clone());
                    proof {
                        assert(function.body@ == def.body);
                    }
                    self.generate_block(
                        builder,
                        &entry,
                        &function.body,
                        &mut block_meta,
                        Ghost(def.arguments),
                        Ghost(number),
                    );
                    proof {
                        assert(Seq::<InstructionView>::empty() + lower_body(def, number)
                            =~= lower_body(def, number));
                        assert(builder.blocks() =~= old(builder).blocks().insert(
                            entry@,
                            lower_body(def, number),
                        ));
                    }
                },
                _ => {
                    // Only a function definition is handed in.
                    assert(!holds_function(node@));
                },
            },
        }
    }

    /// Lowers the statements of a body into the block, in order.
    fn generate_block(
        &mut self,
        builder: &mut ModuleBuilder,
        block: &BlockId,
        body: &Block,
        meta: &mut BlockMeta,
        Ghost(arguments): Ghost<Seq<(Seq<char>, TypeView)>>,
        Ghost(entry): Ghost<nat>,
    )
        requires
            old(builder).blocks().contains_key(block@),
            old(builder).variables().contains_key(block@),
            old(builder).variables()[block@] == argument_types(arguments, entry),
            holds_names(old(meta).variables@, argument_names(arguments, entry)),
            forall|i: int|
                0 <= i < body@.statements.len() ==> can_lower_statement(
                    #[trigger] body@.statements[i],
                    arguments,
                ),
        ensures
            final(builder).wf() == old(builder).wf(),
            final(builder).blocks() == old(builder).blocks().insert(
                block@,
                old(builder).blocks()[block@] + Seq::new(
                    body@.statements.len(),
                    |i: int|
                        lower_statement(
                            body@.statements[i],
                            argument_names(arguments, entry),
                            argument_types(arguments, entry),
                        ),
                ),
            ),
            final(builder).counter() == old(builder).counter(),
            final(builder).functions() == old(builder).functions(),
            final(builder).variables() == old(builder).variables(),
            *final(meta) == *old(meta),
    {
        let ghost names = argument_names(arguments, entry);
        let ghost types = argument_types(arguments, entry);
        let ghost start = builder.blocks()[block@];
        let ghost statements = body@.statements;
        let mut i: usize = 0;
        proof {
            assert(builder.blocks() =~= old(builder).blocks().insert(
                block@,
                start + Seq::new(0, |j: int| lower_statement(statements[j], names, types)),
            )) by {
                assert(start + Seq::new(0, |j: int| lower_statement(statements[j], names, types))
                    =~= start);
            }
        }
        while i < body.statements.len()
            invariant
                i <= body.statements@.len(),
                statements == body@.statements,
                statements.len() == body.statements@.len(),
                names == argument_names(arguments, entry),
                types == argument_types(arguments, entry),
                start == old(builder).blocks()[block@],
                builder.wf() == old(builder).wf(),
                builder.blocks() == old(builder).blocks().insert(
                    block@,
                    start + Seq::new(
                        i as nat,
                        |j: int| lower_statement(statements[j], names, types),
                    ),
                ),
                builder.counter() == old(builder).counter(),
                builder.functions() == old(builder).functions(),
                builder.variables() == old(builder).variables(),
                builder.variables().contains_key(block@),
                builder.variables()[block@] == types,
                *meta == *old(meta),
                holds_names(meta.variables@, names),
                forall|j: int|
                    0 <= j < statements.len() ==> can_lower_statement(
                        #[trigger] statements[j],
                        arguments,
                    ),
            decreases body.statements@.len() - i,
        {
            proof {
                assert(statements[i as int] == body.statements@[i as int]@);
                assert(can_lower_statement(statements[i as int], arguments));
            }
            let ghost blocks_before = builder.blocks();
            self.generate_instruction(
                builder,
                block,
                &body.statements[i],
                meta,
                Ghost(arguments),
                Ghost(entry),
            );
            proof {
                let done = Seq::new(
                    i as nat,
                    |j: int| lower_statement(statements[j], names, types),
                );
                let more = Seq::new(
                    (i + 1) as nat,
                    |j: int| lower_statement(statements[j], names, types),
                );
                assert((start + done).push(lower_statement(statements[i as int], names, types))
                    =~= start + more);
                assert(builder.blocks() =~= old(builder).blocks().insert(block@, start + more));
            }
            i += 1;
        }
    }

    /// Lowers one statement into the block.
    fn generate_instruction(
        &mut self,
        builder: &mut ModuleBuilder,
        block: &BlockId,
        expr: &Expr,
        meta: &mut BlockMeta,
        Ghost(arguments): Ghost<Seq<(Seq<char>, TypeView)>>,
        Ghost(entry): Ghost<nat>,
    )
        requires
            old(builder).blocks().contains_key(block@),
            old(builder).variables().contains_key(block@),
            old(builder).variables()[block@] == argument_types(arguments, entry),
            holds_names(old(meta).variables@, argument_names(arguments, entry)),
            can_lower_statement(expr@, arguments),
        ensures
            final(builder).wf() == old(builder).wf(),
            final(builder).blocks() == old(builder).blocks().insert(
                block@,
                old(builder).blocks()[block@].push(
                    lower_statement(
                        expr@,
                        argument_names(arguments, entry),
                        argument_types(arguments, entry),
                    ),
                ),
            ),
            final(builder).counter() == old(builder).counter(),
            final(builder).functions() == old(builder).functions(),
            final(builder).variables() == old(builder).variables(),
            *final(meta) == *old(meta),
    {
        match &expr.kind {
            ExprKind::Return(returned) => {
                let value = match returned {
                    Some(inner) => {
                        proof {
                            assert(expr@.kind == ExprKindView::Return(Some(Box::new(inner@))));
                        }
                        let value = match &inner.kind {
                            ExprKind::Literal(literal) => match literal {
                                Literal::Number(number) => {
                                    proof {
                                        assert(inner@.kind == ExprKindView::Literal(*literal));
                                    }
                                    Operand::Immediate {
                                        ty: Self::rxir_type(&AstType::Number(number.kind)),
                                        value: number.value,
                                    }
                                },
                            },
                            ExprKind::Variable(name) => {
                                proof {
                                    assert(inner@.kind == ExprKindView::Variable(name@));
                                    lemma_argument_names(arguments, entry);
                                    assert(argument_names(arguments, entry).contains_key(name@));
                                }
                                match meta.variables.get(name) {
                                    Some(id) => Operand::TempVar {
                                        ty: builder.get_var_type(block, id),
                                        id: id.clone(),
                                    },
                                    None => vstd::pervasive::unreached(),
                                }
                            },
                            ExprKind::Return(_) => {
                                assert(inner@.kind is Return);
                                vstd::pervasive::unreached()
                            },
                            ExprKind::FunctionDef(_) => {
                                assert(inner@.kind is FunctionDef);
                                vstd::pervasive::unreached()
                            },
                        };
                        Some(value)
                    },
                    None => {
                        assert(expr@.kind == ExprKindView::Return(None));
                        None
                    },
                };
                builder.build_instruction(block, Instruction::Return { value });
            },
            ExprKind::Literal(_) => {
                assert(expr@.kind is Literal);
            },
            ExprKind::Variable(_) => {
                assert(expr@.kind is Variable);
            },
            ExprKind::FunctionDef(_) => {
                assert(expr@.kind is FunctionDef);
            },
        }
    }
}

} // verus!
