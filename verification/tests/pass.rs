use ascii::AsciiString;
use redox::rxir::builder::ModuleBuilder;
use redox::rxir::pass::NextPass;
use redox::rxir::{GenerationPass, Instruction, Module, PassManager, Type, VerificationPass};
use std::str::FromStr;

struct Accept {
    runs: std::rc::Rc<std::cell::Cell<u32>>,
}

impl VerificationPass for Accept {
    fn run(&mut self, _module: &Module) -> Result<(), String> {
        self.runs.set(self.runs.get() + 1);
        Ok(())
    }
}

struct Reject(&'static str);

impl VerificationPass for Reject {
    fn run(&mut self, _module: &Module) -> Result<(), String> {
        Err(self.0.to_string())
    }
}

struct AddFunction(&'static str);

impl GenerationPass for AddFunction {
    fn run(&mut self, module: &mut Module) {
        let mut builder = ModuleBuilder::new();
        let entry = builder.create_block(Some(AsciiString::from_str(self.0).unwrap()));
        builder.build_instruction(&entry, Instruction::Return { value: None });
        builder.build_function(AsciiString::from_str(self.0).unwrap(), vec![], Type::Void, entry);
        let mut built = builder.build(AsciiString::from_str("scratch").unwrap());
        module.functions.append(&mut built.functions);
    }
}

fn module() -> Module {
    ModuleBuilder::new().build(AsciiString::from_str("m").unwrap())
}

#[test]
fn a_manager_without_passes_does_nothing() {
    let mut module = module();
    assert_eq!(PassManager::new().run(&mut module), Ok(()));
    assert_eq!(module.to_string(), "module m\n");
}

#[test]
fn verifiers_run_before_generators() {
    let runs = std::rc::Rc::new(std::cell::Cell::new(0));
    let mut manager = PassManager::new();
    manager.add_optiizer(Box::new(AddFunction("first")));
    manager.add_verifier(Box::new(Accept { runs: runs.clone() }));
    manager.add_optiizer(Box::new(AddFunction("second")));
    manager.add_verifier(Box::new(Accept { runs: runs.clone() }));
    let mut module = module();
    assert_eq!(manager.run(&mut module), Ok(()));
    assert_eq!(runs.get(), 2);
    assert_eq!(module.functions.len(), 2);
    assert_eq!(module.functions[0].signature.as_str(), "first");
    assert_eq!(module.functions[1].signature.as_str(), "second");
}

#[test]
fn the_first_failing_verifier_stops_the_run() {
    let runs = std::rc::Rc::new(std::cell::Cell::new(0));
    let mut manager = PassManager::new();
    manager.add_verifier(Box::new(Accept { runs: runs.clone() }));
    manager.add_verifier(Box::new(Reject("broken")));
    manager.add_verifier(Box::new(Reject("never reached")));
    manager.add_verifier(Box::new(Accept { runs: runs.clone() }));
    manager.add_optiizer(Box::new(AddFunction("f")));
    let mut module = module();
    assert_eq!(manager.run(&mut module), Err("broken".to_string()));
    assert_eq!(runs.get(), 1);
    assert_eq!(module.functions.len(), 0);
}

fn manager(verifiers: usize, generators: usize) -> PassManager {
    let mut manager = PassManager::new();
    for _ in 0..verifiers {
        manager.add_verifier(Box::new(Reject("no")));
    }
    for _ in 0..generators {
        manager.add_optiizer(Box::new(AddFunction("f")));
    }
    manager
}

#[test]
fn a_run_starts_with_the_first_verifier() {
    assert_eq!(manager(2, 2).first_pass(), NextPass::Verify(0));
    assert_eq!(manager(1, 0).first_pass(), NextPass::Verify(0));
    assert_eq!(manager(0, 2).first_pass(), NextPass::Generate(0));
    assert_eq!(manager(0, 0).first_pass(), NextPass::Finish(Ok(())));
}

#[test]
fn an_error_of_a_verifier_ends_the_run() {
    assert_eq!(
        manager(3, 2).pass_after_verifier(0, Err("broken".to_string())),
        NextPass::Finish(Err("broken".to_string()))
    );
    assert_eq!(
        manager(3, 2).pass_after_verifier(2, Err("late".to_string())),
        NextPass::Finish(Err("late".to_string()))
    );
    assert_eq!(
        manager(1, 0).pass_after_verifier(0, Err(String::new())),
        NextPass::Finish(Err(String::new()))
    );
}

#[test]
fn verifiers_are_asked_in_order_and_generators_follow() {
    assert_eq!(manager(3, 2).pass_after_verifier(0, Ok(())), NextPass::Verify(1));
    assert_eq!(manager(3, 2).pass_after_verifier(1, Ok(())), NextPass::Verify(2));
    assert_eq!(manager(3, 2).pass_after_verifier(2, Ok(())), NextPass::Generate(0));
    assert_eq!(manager(3, 0).pass_after_verifier(2, Ok(())), NextPass::Finish(Ok(())));
    assert_eq!(manager(3, 2).pass_after_generator(0), NextPass::Generate(1));
    assert_eq!(manager(3, 2).pass_after_generator(1), NextPass::Finish(Ok(())));
    assert_eq!(manager(0, 1).pass_after_generator(0), NextPass::Finish(Ok(())));
    assert_eq!(manager(1, 1).pass_after_verifier(usize::MAX, Ok(())), NextPass::Generate(0));
    assert_eq!(manager(1, 1).pass_after_generator(usize::MAX), NextPass::Finish(Ok(())));
    assert_eq!(manager(1, 1).pass_after_generator(7), NextPass::Finish(Ok(())));
}

#[test]
fn generators_work_on_what_the_ones_before_left() {
    struct Count;
    impl GenerationPass for Count {
        fn run(&mut self, module: &mut Module) {
            let seen = module.functions.len();
            let name = format!("f{}", seen);
            AddFunction(if seen == 0 { "f0" } else if seen == 1 { "f1" } else { "f2" }).run(module);
            assert_eq!(module.functions[seen].signature.as_str(), name);
        }
    }
    let mut manager = PassManager::new();
    manager.add_optiizer(Box::new(Count));
    manager.add_optiizer(Box::new(Count));
    manager.add_optiizer(Box::new(Count));
    let mut module = module();
    assert_eq!(manager.run(&mut module), Ok(()));
    let names: Vec<&str> = module.functions.iter().map(|f| f.signature.as_str()).collect();
    assert_eq!(names, vec!["f0", "f1", "f2"]);
}
