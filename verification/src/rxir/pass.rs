//! Passes over a module, and the manager that runs them.

use vstd::prelude::*;

use super::Module;

verus! {

/// A pass that checks a module. It reads the module and says what is wrong with it.
pub trait VerificationPass {
    fn run(&mut self, module: &Module) -> Result<(), String>;
}

/// A pass that changes a module.
pub trait GenerationPass {
    fn run(&mut self, module: &mut Module);
}

/// A pass that checks, as the manager keeps it.
pub struct Verifier {
    pub pass: Box<dyn VerificationPass>,
}

/// A pass that changes, as the manager keeps it.
pub struct Generator {
    pub pass: Box<dyn GenerationPass>,
}

/// The passes to run over a module: those that check it, and those that change it.
pub struct PassManager {
    verifiers: Vec<Verifier>,
    optimizers: Vec<Generator>,
}

impl PassManager {
    /// The passes that check the module, in the order in which they are asked.
    pub closed spec fn verifiers(&self) -> Seq<Verifier> {
        self.verifiers@
    }

    /// The passes that change the module, in the order in which they work.
    pub closed spec fn generators(&self) -> Seq<Generator> {
        self.optimizers@
    }

    /// How many passes check the module.
    pub open spec fn verifier_count(&self) -> nat {
        self.verifiers().len()
    }

    /// How many passes change the module.
    pub open spec fn generator_count(&self) -> nat {
        self.generators().len()
    }

    /// A manager without passes.
    pub fn new() -> (manager: PassManager)
        ensures
            manager.verifiers() == Seq::<Verifier>::empty(),
            manager.generators() == Seq::<Generator>::empty(),
            manager.verifier_count() == 0,
            manager.generator_count() == 0,
    {
        PassManager { verifiers: Vec::new(), optimizers: Vec::new() }
    }

    /// Adds a pass that checks the module: it is the last of its list, behind
    /// those added before.
    pub fn add_verifier(&mut self, verifier: Box<dyn VerificationPass>)
        ensures
            final(self).verifiers() == old(self).verifiers().push(Verifier { pass: verifier }),
            final(self).verifier_count() == old(self).verifier_count() + 1,
            final(self).verifiers()[old(self).verifier_count() as int] == (Verifier {
                pass: verifier,
            }),
            forall|i: int|
                0 <= i < old(self).verifier_count() ==> #[trigger] final(self).verifiers()[i]
                    == old(self).verifiers()[i],
            final(self).generators() == old(self).generators(),
    {
        let slot = Verifier { pass: verifier };
        self.verifiers.push(slot);
        proof {
            let before = old(self).verifiers@;
            vstd::seq::axiom_seq_push_len(before, slot);
            vstd::seq::axiom_seq_push_index_same(before, slot, before.len() as int);
            assert forall|i: int| 0 <= i < before.len() implies #[trigger] self.verifiers@[i]
                == before[i] by {
                vstd::seq::axiom_seq_push_index_different(before, slot, i);
            }
        }
    }

    /// Adds a pass that changes the module: it is the last of its list,
    /// behind those added before.
    pub fn add_optiizer(&mut self, optiizer: Box<dyn GenerationPass>)
        ensures
            final(self).generators() == old(self).generators().push(Generator { pass: optiizer }),
            final(self).generator_count() == old(self).generator_count() + 1,
            final(self).generators()[old(self).generator_count() as int] == (Generator {
                pass: optiizer,
            }),
            forall|i: int|
                0 <= i < old(self).generator_count() ==> #[trigger] final(self).generators()[i]
                    == old(self).generators()[i],
            final(self).verifiers() == old(self).verifiers(),
    {
        let slot = Generator { pass: optiizer };
        self.optimizers.push(slot);
        proof {
            let before = old(self).optimizers@;
            vstd::seq::axiom_seq_push_len(before, slot);
            vstd::seq::axiom_seq_push_index_same(before, slot, before.len() as int);
            assert forall|i: int| 0 <= i < before.len() implies #[trigger] self.optimizers@[i]
                == before[i] by {
                vstd::seq::axiom_seq_push_index_different(before, slot, i);
            }
        }
    }

    /// Runs the passes that check the module, in order, and stops at the first
    /// that fails; then runs the passes that change the module, in order.
    pub fn run(&mut self, module: &mut Module) -> (outcome: Result<(), String>)
        ensures
            final(self).verifier_count() == old(self).verifier_count(),
            final(self).generator_count() == old(self).generator_count(),
            old(self).verifier_count() == 0 ==> outcome is Ok,
            outcome is Err ==> *final(module) == *old(module),
            old(self).generator_count() == 0 ==> *final(module) == *old(module),
    {
        let ghost verifiers = self.verifier_count();
        let ghost generators = self.generator_count();
        let mut next = self.first_pass();
        loop
            invariant
                self.verifier_count() == verifiers,
                self.generator_count() == generators,
                verifiers == old(self).verifier_count(),
                generators == old(self).generator_count(),
                next matches NextPass::Verify(index) ==> index < verifiers,
                next matches NextPass::Generate(index) ==> index < generators,
                next is Verify ==> *module == *old(module),
                next matches NextPass::Finish(Err(_)) ==> *module == *old(module),
                verifiers == 0 ==> !(next is Verify) && !(next matches NextPass::Finish(Err(_))),
                generators == 0 ==> *module == *old(module),
            decreases passes_left(next@, verifiers, generators),
        {
            match next {
                NextPass::Verify(index) => {
                    let verifier = &mut self.verifiers[index];
                    let verdict = verifier.pass.run(module);
                    next = self.pass_after_verifier(index, verdict);
                },
                NextPass::Generate(index) => {
                    let generator = &mut self.optimizers[index];
                    generator.pass.run(module);
                    next = self.pass_after_generator(index);
                },
                NextPass::Finish(outcome) => {
                    return outcome;
                },
            }
        }
    }
}

/// What a run does next.
#[derive(Debug, PartialEq)]
pub enum NextPass {
    /// It asks the checking pass of this index.
    Verify(usize),
    /// It lets the changing pass of this index work.
    Generate(usize),
    /// It ends, with this outcome.
    Finish(Result<(), String>),
}

/// The mathematical value of a [`NextPass`].
pub enum NextPassView {
    Verify(nat),
    Generate(nat),
    Finish(Result<(), Seq<char>>),
}

/// The value of what a checking pass says.
pub open spec fn verdict_view(verdict: Result<(), String>) -> Result<(), Seq<char>> {
    match verdict {
        Ok(()) => Ok(()),
        Err(message) => Err(message@),
    }
}

impl View for NextPass {
    type V = NextPassView;

    open spec fn view(&self) -> NextPassView {
        match self {
            NextPass::Verify(index) => NextPassView::Verify(*index as nat),
            NextPass::Generate(index) => NextPassView::Generate(*index as nat),
            NextPass::Finish(outcome) => NextPassView::Finish(verdict_view(*outcome)),
        }
    }
}

/// What a run does once the changing passes before `index` have worked: the
/// changing pass of that index is next, and behind the last one the run ends well.
pub open spec fn generate_from(index: nat, generators: nat) -> NextPassView {
    if index < generators {
        NextPassView::Generate(index)
    } else {
        NextPassView::Finish(Ok(()))
    }
}

/// How a run starts: with the first checking pass, and where there is none,
/// with the changing passes.
pub open spec fn first_pass(verifiers: nat, generators: nat) -> NextPassView {
    if verifiers > 0 {
        NextPassView::Verify(0)
    } else {
        generate_from(0, generators)
    }
}

/// How a run goes on after the checking pass of `index` has spoken: an error
/// ends the run with that error, and no other pass is run; else the next
/// checking pass is asked, and behind the last one the changing passes start.
pub open spec fn pass_after_verifier(
    index: nat,
    verdict: Result<(), Seq<char>>,
    verifiers: nat,
    generators: nat,
) -> NextPassView {
    match verdict {
        Err(message) => NextPassView::Finish(Err(message)),
        Ok(()) => if index + 1 < verifiers {
            NextPassView::Verify(index + 1)
        } else {
            generate_from(0, generators)
        },
    }
}

/// How a run goes on after the changing pass of `index` has worked: with the
/// next one, and behind the last one the run ends well.
pub open spec fn pass_after_generator(index: nat, generators: nat) -> NextPassView {
    generate_from(index + 1, generators)
}

/// How many passes a run may still run before it ends, counted from what it does next.
pub open spec fn passes_left(next: NextPassView, verifiers: nat, generators: nat) -> int {
    match next {
        NextPassView::Verify(index) => verifiers - index + generators + 1,
        NextPassView::Generate(index) => generators - index + 1,
        NextPassView::Finish(_) => 0,
    }
}

impl PassManager {
    /// What a run does first.
    pub fn first_pass(&self) -> (next: NextPass)
        ensures
            next@ == first_pass(self.verifier_count(), self.generator_count()),
    {
        if self.verifiers.len() > 0 {
            NextPass::Verify(0)
        } else if self.optimizers.len() > 0 {
            NextPass::Generate(0)
        } else {
            NextPass::Finish(Ok(()))
        }
    }

    /// What a run does after the checking pass of `index` has said `verdict`.
    pub fn pass_after_verifier(&self, index: usize, verdict: Result<(), String>) -> (next:
        NextPass)
        ensures
            next@ == pass_after_verifier(
                index as nat,
                verdict_view(verdict),
                self.verifier_count(),
                self.generator_count(),
            ),
    {
        match verdict {
            Err(message) => NextPass::Finish(Err(message)),
            Ok(()) => {
                let count = self.verifiers.len();
                if index < count && index + 1 < count {
                    NextPass::Verify(index + 1)
                } else if self.optimizers.len() > 0 {
                    NextPass::Generate(0)
                } else {
                    NextPass::Finish(Ok(()))
                }
            },
        }
    }

    /// What a run does after the changing pass of `index` has worked.
    pub fn pass_after_generator(&self, index: usize) -> (next: NextPass)
        ensures
            next@ == pass_after_generator(index as nat, self.generator_count()),
    {
        let count = self.optimizers.len();
        if index < count && index + 1 < count {
            NextPass::Generate(index + 1)
        } else {
            NextPass::Finish(Ok(()))
        }
    }
}

} // verus!
