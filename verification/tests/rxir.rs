use ascii::AsciiString;
use redox::rxir::builder::ModuleBuilder;
use redox::rxir::utils::{get_connected_blocks, get_related_blocks};
use redox::rxir::{Block, BlockId, Function, Instruction, Module, Operand, TempVarId, Type};
use redox::table::{Key, Table};
use std::str::FromStr;

fn ascii(text: &str) -> AsciiString {
    AsciiString::from_str(text).unwrap()
}

#[test]
fn ids_print_with_their_sigil() {
    assert_eq!(TempVarId::Generated(0).to_string(), "%0");
    assert_eq!(TempVarId::Generated(1234567890).to_string(), "%1234567890");
    assert_eq!(TempVarId::Named(ascii("count")).to_string(), "%count");
    assert_eq!(BlockId::Generated(7).to_string(), "@7");
    assert_eq!(BlockId::Generated(10).to_string(), "@10");
    assert_eq!(BlockId::Named(ascii("entry")).to_string(), "@entry");
    assert_eq!(TempVarId::Generated(usize::MAX).to_string(), format!("%{}", usize::MAX));
}

#[test]
fn ids_are_the_same_by_value() {
    assert!(BlockId::Generated(1).same(&BlockId::Generated(1)));
    assert!(!BlockId::Generated(1).same(&BlockId::Generated(2)));
    assert!(BlockId::Named(ascii("a")).same(&BlockId::Named(ascii("a"))));
    assert!(!BlockId::Named(ascii("a")).same(&BlockId::Named(ascii("b"))));
    assert!(!BlockId::Named(ascii("1")).same(&BlockId::Generated(1)));
    assert!(TempVarId::Named(ascii("a")).same(&TempVarId::Named(ascii("a"))));
    assert!(!TempVarId::Named(ascii("a")).same(&TempVarId::Named(ascii("ab"))));
    assert!(!TempVarId::Generated(3).same(&TempVarId::Generated(4)));
    assert_eq!(BlockId::Named(ascii("a")).clone(), BlockId::Named(ascii("a")));
    assert_eq!(TempVarId::Generated(5).clone(), TempVarId::Generated(5));
}

#[test]
fn types_print() {
    assert_eq!(Type::Void.to_string(), "void");
    assert_eq!(Type::Signed32.to_string(), "i32");
    assert_eq!(Type::pointer(Type::Signed32).to_string(), "i32*");
    assert_eq!(Type::pointer(Type::pointer(Type::Void)).to_string(), "void**");
    assert_eq!(Type::pointer(Type::Signed32), Type::Pointer(Box::new(Type::Signed32)));
    assert_eq!(Type::pointer(Type::Signed32).clone(), Type::pointer(Type::Signed32));
}

#[test]
fn operands_print() {
    let constant = Operand::Immediate { ty: Type::Signed32, value: 42 };
    assert_eq!(constant.to_string(), "42i32");
    assert_eq!(constant.ty(), Type::Signed32);
    let temporary = Operand::TempVar { ty: Type::pointer(Type::Signed32), id: TempVarId::Generated(3) };
    assert_eq!(temporary.to_string(), "%3");
    assert_eq!(temporary.ty(), Type::pointer(Type::Signed32));
    assert_eq!(Operand::Immediate { ty: Type::Signed32, value: 0 }.to_string(), "0i32");
    assert_eq!(
        Operand::Immediate { ty: Type::Signed32, value: u64::MAX }.to_string(),
        "18446744073709551615i32"
    );
}

#[test]
fn instructions_print() {
    assert_eq!(
        Instruction::Alloca { dest: TempVarId::Generated(1), ty: Type::Signed32 }.to_string(),
        "%1 = alloca i32"
    );
    assert_eq!(Instruction::Return { value: None }.to_string(), "return void");
    assert_eq!(
        Instruction::Return { value: Some(Operand::Immediate { ty: Type::Signed32, value: 42 }) }
            .to_string(),
        "return i32 42i32"
    );
    assert_eq!(
        Instruction::Return {
            value: Some(Operand::TempVar { ty: Type::Signed32, id: TempVarId::Named(ascii("x")) })
        }
        .to_string(),
        "return i32 %x"
    );
    assert!(Instruction::Return { value: None }.has_text());
    assert!(!Instruction::Load { dest: TempVarId::Generated(0), src: TempVarId::Generated(1) }.has_text());
    assert!(!Instruction::Store {
        dest: TempVarId::Generated(0),
        src: Operand::Immediate { ty: Type::Signed32, value: 1 }
    }
    .has_text());
}

#[test]
fn blocks_print_one_instruction_per_line() {
    assert_eq!(Block::default().to_string(), "");
    let block = Block {
        instructions: vec![
            Instruction::Alloca { dest: TempVarId::Generated(1), ty: Type::Signed32 },
            Instruction::Return { value: None },
        ],
    };
    assert!(block.has_text());
    assert_eq!(block.to_string(), "    %1 = alloca i32\n    return void\n");
    let unprintable = Block {
        instructions: vec![Instruction::Load {
            dest: TempVarId::Generated(0),
            src: TempVarId::Generated(1),
        }],
    };
    assert!(!unprintable.has_text());
}

#[test]
fn a_builder_counts_blocks_and_values_together() {
    let mut builder = ModuleBuilder::new();
    let first = builder.create_block(None);
    assert_eq!(first, BlockId::Generated(0));
    let value = builder.create_value(&first, Type::Signed32, None);
    assert_eq!(value, TempVarId::Generated(1));
    let second = builder.create_block(None);
    assert_eq!(second, BlockId::Generated(2));
    let named = builder.create_block(Some(ascii("exit")));
    assert_eq!(named, BlockId::Named(ascii("exit")));
    let named_value = builder.create_value(&second, Type::Void, Some(ascii("result")));
    assert_eq!(named_value, TempVarId::Named(ascii("result")));
    assert_eq!(builder.create_block(None), BlockId::Generated(3));
    assert_eq!(builder.get_var_type(&first, &value), Type::Signed32);
    assert_eq!(builder.get_var_type(&second, &named_value), Type::Void);
}

#[test]
fn a_builder_builds_allocas() {
    let mut builder = ModuleBuilder::new();
    let block = builder.create_block(None);
    let pointer = builder.build_alloca(&block, Type::Signed32, None);
    assert_eq!(pointer, TempVarId::Generated(1));
    assert_eq!(builder.get_var_type(&block, &pointer), Type::pointer(Type::Signed32));
    let named = builder.build_alloca(&block, Type::pointer(Type::Signed32), Some(ascii("slot")));
    assert_eq!(builder.get_var_type(&block, &named), Type::pointer(Type::pointer(Type::Signed32)));
    builder.build_instruction(&block, Instruction::Return { value: None });
    assert_eq!(
        builder.get_block(&block).to_string(),
        "    %1 = alloca i32\n    %slot = alloca i32*\n    return void\n"
    );
}

#[test]
fn a_built_module_prints() {
    let mut builder = ModuleBuilder::new();
    let entry = builder.create_block(Some(ascii("start")));
    let argument = builder.create_value(&entry, Type::Signed32, Some(ascii("n")));
    let other = builder.create_value(&entry, Type::pointer(Type::Void), None);
    builder.build_function(
        ascii("identity"),
        vec![(argument.clone(), Type::Signed32), (other, Type::pointer(Type::Void))],
        Type::Signed32,
        entry.clone(),
    );
    builder.build_instruction(
        &entry,
        Instruction::Return { value: Some(Operand::TempVar { ty: Type::Signed32, id: argument }) },
    );
    let empty = builder.create_block(None);
    builder.build_function(ascii("nothing"), vec![], Type::Void, empty);
    let module = builder.build(ascii("demo"));
    assert!(module.has_text());
    assert_eq!(
        module.to_string(),
        "module demo\n\
         fn i32 identity (%n: i32, %0: void*) {\n\
         @start:\n    return i32 %n\n\
         }\n\
         fn void nothing () {\n\
         @1:\n\
         }\n"
    );
    assert_eq!(module.functions[0].to_string(&module), "fn i32 identity (%n: i32, %0: void*) {\n@start:\n    return i32 %n\n}\n");
}

#[test]
fn an_empty_module_prints_its_name() {
    assert_eq!(ModuleBuilder::new().build(ascii("empty")).to_string(), "module empty\n");
}

#[test]
fn a_module_that_misses_a_block_has_no_text() {
    let module = Module {
        name: ascii("m"),
        blocks: Table::new(),
        functions: vec![Function {
            signature: ascii("f"),
            arguments: vec![],
            entry: BlockId::Generated(0),
            return_ty: Type::Void,
        }],
    };
    assert!(!module.has_text());
    let mut builder = ModuleBuilder::new();
    let entry = builder.create_block(None);
    builder.build_function(ascii("f"), vec![], Type::Void, entry.clone());
    builder.build_instruction(
        &entry,
        Instruction::Load { dest: TempVarId::Generated(5), src: TempVarId::Generated(6) },
    );
    assert!(!builder.build(ascii("m")).has_text());
}

#[test]
fn a_named_block_replaces_the_block_of_that_name() {
    let mut builder = ModuleBuilder::new();
    let first = builder.create_block(Some(ascii("b")));
    builder.build_instruction(&first, Instruction::Return { value: None });
    assert_eq!(builder.get_block(&first).instructions.len(), 1);
    let again = builder.create_block(Some(ascii("b")));
    assert_eq!(builder.get_block(&again).instructions.len(), 0);
}

#[test]
fn related_blocks_are_the_entry() {
    let mut builder = ModuleBuilder::new();
    let entry = builder.create_block(None);
    let other = builder.create_block(None);
    builder.build_function(ascii("f"), vec![], Type::Void, entry.clone());
    builder.build_instruction(&entry, Instruction::Return { value: None });
    builder.build_instruction(&other, Instruction::Return { value: None });
    let module = builder.build(ascii("m"));
    assert_eq!(get_related_blocks(&module, &module.functions[0]), vec![BlockId::Generated(0)]);
    assert_eq!(get_connected_blocks(&module, &entry), vec![]);
}

#[test]
fn a_table_is_a_map() {
    let mut table: Table<String, u32> = Table::new();
    assert!(!table.contains_key(&"a".to_string()));
    assert_eq!(table.get(&"a".to_string()), None);
    table.insert("a".to_string(), 1);
    table.insert("b".to_string(), 2);
    assert_eq!(table.get(&"a".to_string()), Some(&1));
    assert_eq!(table.get(&"b".to_string()), Some(&2));
    table.insert("a".to_string(), 3);
    assert_eq!(table.get(&"a".to_string()), Some(&3));
    assert_eq!(table.get(&"b".to_string()), Some(&2));
    assert_eq!(table.remove(&"a".to_string()), Some(3));
    assert_eq!(table.remove(&"a".to_string()), None);
    assert!(!table.contains_key(&"a".to_string()));
    assert!(table.contains_key(&"b".to_string()));
}

#[test]
fn a_table_changes_values_in_place() {
    let mut table: Table<String, u32> = Table::new();
    table.insert("a".to_string(), 1);
    table.insert("b".to_string(), 2);
    *table.get_mut(&"a".to_string()).unwrap() += 10;
    assert_eq!(table.get(&"a".to_string()), Some(&11));
    assert_eq!(table.get(&"b".to_string()), Some(&2));
    assert!(table.get_mut(&"c".to_string()).is_none());
}

#[test]
fn a_builder_hands_out_its_blocks() {
    let mut builder = ModuleBuilder::new();
    let block = builder.create_block(None);
    builder.get_block_mut(&block).instructions.push(Instruction::Return { value: None });
    assert_eq!(builder.get_block(&block).instructions.len(), 1);
    builder.build_instruction(&block, Instruction::Return { value: None });
    assert_eq!(builder.get_block(&block).to_string(), "    return void\n    return void\n");
}

#[test]
fn a_builder_tells_what_it_has_made() {
    let mut builder = ModuleBuilder::new();
    assert!(builder.has_room());
    let missing = BlockId::Generated(0);
    assert!(!builder.has_block(&missing));
    assert!(!builder.has_variables(&missing));
    assert!(!builder.has_value(&missing, &TempVarId::Generated(1)));
    let block = builder.create_block(None);
    assert!(builder.has_block(&block));
    assert!(builder.has_variables(&block));
    assert!(!builder.has_value(&block, &TempVarId::Generated(1)));
    let value = builder.create_value(&block, Type::Void, None);
    assert!(builder.has_value(&block, &value));
    assert!(!builder.has_value(&block, &TempVarId::Named(ascii("x"))));
    assert!(!builder.has_block(&BlockId::Named(ascii("0"))));
}

#[test]
fn a_generated_id_is_new_to_the_builder() {
    let mut builder = ModuleBuilder::new();
    let mut blocks: Vec<BlockId> = Vec::new();
    let mut values: Vec<TempVarId> = Vec::new();
    for round in 0..6 {
        let next = BlockId::Generated(2 * round);
        assert!(!builder.has_block(&next));
        assert!(!builder.has_variables(&next));
        let block = builder.create_block(None);
        assert_eq!(block, next);
        assert!(!blocks.contains(&block));
        for earlier in &blocks {
            assert!(builder.has_block(earlier));
        }
        blocks.push(block.clone());
        let value = TempVarId::Generated(2 * round + 1);
        for made in &blocks {
            assert!(!builder.has_value(made, &value));
        }
        let made = if round % 2 == 0 {
            builder.create_value(&blocks[0], Type::Signed32, None)
        } else {
            builder.build_alloca(&block, Type::Signed32, None)
        };
        assert_eq!(made, value);
        assert!(!values.contains(&made));
        values.push(made);
    }
}

#[test]
fn a_block_without_a_jump_leads_nowhere() {
    let mut builder = ModuleBuilder::new();
    let entry = builder.create_block(None);
    let empty = builder.create_block(None);
    builder.build_instruction(&entry, Instruction::Return { value: None });
    builder.build_function(ascii("f"), vec![], Type::Void, entry.clone());
    builder.build_function(ascii("g"), vec![], Type::Void, BlockId::Named(ascii("gone")));
    let module = builder.build(ascii("m"));
    assert_eq!(get_connected_blocks(&module, &entry), vec![]);
    assert_eq!(get_connected_blocks(&module, &empty), vec![]);
    assert_eq!(get_connected_blocks(&module, &BlockId::Named(ascii("gone"))), vec![]);
    assert_eq!(Instruction::Return { value: None }.targets(), vec![]);
    assert_eq!(Instruction::Alloca { dest: TempVarId::Generated(0), ty: Type::Void }.targets(), vec![]);
    assert_eq!(get_related_blocks(&module, &module.functions[0]), vec![entry]);
    assert_eq!(
        get_related_blocks(&module, &module.functions[1]),
        vec![BlockId::Named(ascii("gone"))]
    );
    assert!(module.functions[0].to_string(&module).contains("@0:\n    return void\n"));
    assert!(!module.has_text());
}
