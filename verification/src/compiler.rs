//! The compiler: it walks a syntax tree and appends the tree's code to an
//! instruction stream and its constants to a constant pool.

use vstd::prelude::*;
use std::rc::Rc;
use crate::ast::{
    BlockStatement, Expression, IfExpression, InfixExpression, Literal, Node, Statement,
};
use crate::disassembly::{disassemble, listing};
use crate::error::{CompileError, Construct};
use crate::history::{
    ends_in_value, history_of_block_value, history_of_conditional, history_of_expression,
    history_of_node, history_of_operands, history_of_statement, history_of_statements, History,
};
use crate::coherence::{lemma_compilation_keeps_coherence, lemma_empty_is_coherent};
use crate::laws::{lemma_block_value, lemma_statements_history};
use crate::lowering::{
    conditional_chunk, infix_opcode, lower_block_value, lower_conditional, lower_expression,
    lower_node,
    lower_operands, lower_statement, lower_statements, prefix_opcode, unsupported_in_conditional,
    unsupported_in_expression, unsupported_in_node, unsupported_in_operands,
    unsupported_in_statement, unsupported_in_statements, Chunk,
};
use crate::object::{share_all, Object};
use crate::opcode::{
    encode, lemma_decode_inverts_byte, lemma_encode_layout, make, operand_values, Instructions,
    Opcode,
};
use crate::stream::well_formed;
use crate::token::Token;

verus! {

/// The stream `code` with the operand of the one-operand instruction at
/// `position` overwritten: the opcode stays, and so does every byte before
/// and behind the instruction.
pub open spec fn patched(code: Seq<u8>, position: int, operand: nat) -> Seq<u8> {
    code.subrange(0, position) + encode(Opcode::decode(code[position]).unwrap(), seq![operand])
        + code.subrange(position + 3, code.len() as int)
}

/// The values that the handles of a constant pool point to.
pub open spec fn pool_values(pool: Seq<Rc<Object>>) -> Seq<Object> {
    pool.map_values(|constant: Rc<Object>| *constant)
}

/// A compiled program: an instruction stream and the constants that its
/// instructions refer to by index.
#[derive(Debug, PartialEq)]
pub struct Bytecode {
    pub instructions: Instructions,
    pub constants: Vec<Rc<Object>>,
}

impl View for Bytecode {
    type V = Chunk;

    open spec fn view(&self) -> Chunk {
        Chunk { code: self.instructions@, constants: pool_values(self.constants@) }
    }
}

impl Bytecode {
    /// The instruction stream as text, one line for each instruction:
    /// its offset, its mnemonic and its operand, if it has one. There is
    /// no text for a stream that is not a run of whole instructions.
    pub fn disassemble(&self) -> (text: Option<String>)
        ensures
            text is Some <==> well_formed(self.instructions@),
            text matches Some(lines) ==> lines@ == listing(self.instructions@),
    {
        disassemble(&self.instructions)
    }
}

impl Clone for Bytecode {
    fn clone(&self) -> (copy: Bytecode)
        ensures
            copy@ == self@,
    {
        Bytecode { instructions: self.instructions.clone(), constants: share_all(&self.constants) }
    }
}

/// An instruction as the compiler remembers it: its opcode and the offset
/// of its first byte.
#[derive(Clone, Copy, Debug)]
struct EmittedInstruction {
    opcode: Opcode,
    position: usize,
}

/// The state of a compilation: the code and constants emitted so far, and
/// the last two instructions emitted.
pub struct Compiler {
    instructions: Instructions,
    constants: Vec<Rc<Object>>,
    last_instruction: Option<EmittedInstruction>,
    previous_instruction: Option<EmittedInstruction>,
}

impl View for Compiler {
    type V = Chunk;

    closed spec fn view(&self) -> Chunk {
        Chunk { code: self.instructions@, constants: pool_values(self.constants@) }
    }
}

impl Compiler {
    /// A compiler that has emitted nothing.
    pub fn new() -> (compiler: Compiler)
        ensures
            compiler@ == Chunk::empty(),
            compiler@.coherent(),
            compiler.history() == (History { last: None, previous: None }),
    {
        let compiler = Compiler {
            instructions: Instructions::default(),
            constants: Vec::new(),
            last_instruction: None,
            previous_instruction: None,
        };
        assert(compiler@.constants =~= Seq::empty());
        proof {
            lemma_empty_is_coherent();
        }
        compiler
    }

    /// The last two instructions emitted, as the compiler remembers them.
    pub closed spec fn history(&self) -> History {
        History {
            last: match self.last_instruction {
                Some(instruction) => Some((instruction.opcode, instruction.position as nat)),
                None => None,
            },
            previous: match self.previous_instruction {
                Some(instruction) => Some((instruction.opcode, instruction.position as nat)),
                None => None,
            },
        }
    }

    /// Whether the stream ends with an instruction without operands that has
    /// the opcode `op`, and that instruction is remembered as the last one
    /// emitted.
    pub open spec fn ends_with(&self, op: Opcode) -> bool {
        &&& op.arity() == 0
        &&& self@.code.len() > 0
        &&& self.history().last == Some((op, (self@.code.len() - 1) as nat))
        &&& self@.code.last() == op.byte()
    }

    /// Appends a constant to the pool and returns its index. Equal constants
    /// are not merged: every call adds an entry.
    pub fn add_constant(&mut self, obj: Object) -> (index: usize)
        ensures
            index == old(self)@.constants.len(),
            final(self)@.constants == old(self)@.constants.push(obj),
            final(self)@.code == old(self)@.code,
            final(self).history() == old(self).history(),
    {
        self.constants.push(Rc::new(obj));
        assert(self@.constants =~= old(self)@.constants.push(obj));
        self.constants.len() - 1
    }

    /// Overwrites the operand of the instruction that starts at
    /// `position`, which must be a whole instruction with one operand. The
    /// opcode stays, and so does every byte before and behind the
    /// instruction.
    pub fn change_operand(&mut self, position: usize, operand: usize)
        requires
            position + 3 <= old(self)@.code.len(),
            Opcode::decode(old(self)@.code[position as int]) matches Some(opcode)
                && opcode.arity() == 1,
        ensures
            final(self)@.code == patched(old(self)@.code, position as int, operand as nat),
            final(self)@.code.len() == old(self)@.code.len(),
            final(self)@.constants == old(self)@.constants,
            final(self).history() == old(self).history(),
    {
        let decoded = Opcode::from_byte(self.instructions.0[position]);
        match decoded {
            Some(op) => {
                let operands = vec![operand];
                let new_instruction = make(op, &operands);
                proof {
                    assert(operands@ =~= seq![operand]);
                    assert(operand_values(operands@) =~= seq![operand as nat]);
                    lemma_encode_layout(op, seq![operand as nat]);
                }
                self.replace_instruction(position, new_instruction);
            },
            None => {},
        }
    }

    /// Appends encoded instructions and returns the offset of their first
    /// byte.
    fn add_instructions(&mut self, instructions: Instructions) -> (position: usize)
        ensures
            position == old(self)@.code.len(),
            final(self)@.code == old(self)@.code + instructions@,
            final(self)@.constants == old(self)@.constants,
            final(self).last_instruction == old(self).last_instruction,
            final(self).previous_instruction == old(self).previous_instruction,
    {
        let position = self.instructions.0.len();
        let mut bytes = instructions.0;
        self.instructions.0.append(&mut bytes);
        position
    }

    fn current_instructions(&self) -> (instructions: &Instructions)
        ensures
            instructions@ == self@.code,
    {
        &self.instructions
    }

    /// Overwrites the bytes from `position` on with `new_instruction`.
    fn replace_instruction(&mut self, position: usize, new_instruction: Instructions)
        requires
            position + new_instruction@.len() <= old(self)@.code.len(),
        ensures
            final(self)@.code == old(self)@.code.subrange(0, position as int) + new_instruction@
                + old(self)@.code.subrange(
                position + new_instruction@.len(),
                old(self)@.code.len() as int,
            ),
            final(self)@.constants == old(self)@.constants,
            final(self).last_instruction == old(self).last_instruction,
            final(self).previous_instruction == old(self).previous_instruction,
    {
        let length = self.instructions.0.len();
        let mut i: usize = 0;
        while i < new_instruction.0.len()
            invariant
                i <= new_instruction@.len(),
                position + new_instruction@.len() <= old(self)@.code.len() == length,
                self@.code.len() == old(self)@.code.len(),
                forall|j: int|
                    0 <= j < self@.code.len() ==> self@.code[j] == if position <= j < position + i {
                        new_instruction@[j - position]
                    } else {
                        old(self)@.code[j]
                    },
                self@.constants == old(self)@.constants,
                self.last_instruction == old(self).last_instruction,
                self.previous_instruction == old(self).previous_instruction,
            decreases new_instruction@.len() - i,
        {
            let byte: u8 = new_instruction.0[i];
            self.instructions.0.set(position + i, byte);
            i += 1;
        }
        assert(self@.code =~= old(self)@.code.subrange(0, position as int) + new_instruction@
            + old(self)@.code.subrange(
            position + new_instruction@.len(),
            old(self)@.code.len() as int,
        ));
    }

    /// Records `op` at `position` as the instruction emitted last; the one
    /// that was last becomes the previous one.
    fn set_last_instruction(&mut self, op: Opcode, position: usize)
        ensures
            final(self)@ == old(self)@,
            final(self).last_instruction == Some(EmittedInstruction { opcode: op, position }),
            final(self).previous_instruction == old(self).last_instruction,
    {
        let previous = self.last_instruction;
        self.previous_instruction = previous;
        self.last_instruction = Some(EmittedInstruction { opcode: op, position });
    }

    /// The code and constants emitted so far.
    pub fn bytecode(&self) -> (bytecode: Bytecode)
        ensures
            bytecode@ == self@,
    {
        Bytecode { instructions: self.instructions.clone(), constants: share_all(&self.constants) }
    }

    /// Encodes an instruction and appends it, and returns the offset of
    /// its first byte. The instruction is remembered as the last one
    /// emitted, and the one that was last as the previous one. The operands
    /// must be as many as the opcode takes.
    pub fn emit(&mut self, op: Opcode, operands: Vec<usize>) -> (position: usize)
        requires
            operands@.len() == op.arity(),
        ensures
            position == old(self)@.code.len(),
            final(self)@ == old(self)@.followed_by(
                Chunk::instruction(op, operand_values(operands@)),
            ),
            op.arity() == 0 ==> final(self)@ == old(self)@.followed_by(
                Chunk::instruction(op, seq![]),
            ),
            op.arity() == 1 ==> final(self)@ == old(self)@.followed_by(
                Chunk::instruction(op, seq![operands@[0] as nat]),
            ),
            final(self)@.code.len() == old(self)@.code.len() + op.size(),
            final(self)@.code[position as int] == op.byte(),
            final(self).history() == old(self).history().emit(op, position as nat),
            op.arity() == 0 ==> final(self).ends_with(op),
    {
        proof {
            lemma_encode_layout(op, operand_values(operands@));
            if op.arity() == 0 {
                assert(operand_values(operands@) =~= seq![]);
            } else {
                assert(operand_values(operands@) =~= seq![operands@[0] as nat]);
            }
        }
        let instructions = make(op, &operands);
        let index = self.add_instructions(instructions);
        self.set_last_instruction(op, index);
        assert(self@.constants =~= old(self)@.constants + Seq::<Object>::empty());
        index
    }

    /// Whether the instruction emitted last has the opcode `op`.
    pub fn last_instruction_is(&self, op: Opcode) -> (is: bool)
        ensures
            is == (self.history().last matches Some(last) && last.0 == op),
    {
        match &self.last_instruction {
            Some(instruction) => instruction.opcode == op,
            None => false,
        }
    }

    /// Retracts the discard instruction that was emitted last: takes its
    /// byte off the stream. The instruction before it counts as the last
    /// one again. The stream must end with that discard instruction.
    pub fn remove_last_pop(&mut self)
        requires
            old(self).ends_with(Opcode::OpPop),
        ensures
            final(self)@.code == old(self)@.code.drop_last(),
            final(self)@.constants == old(self)@.constants,
            final(self).history() == old(self).history().retract(),
    {
        self.instructions.0.pop();
        self.last_instruction = self.previous_instruction;
    }

    /// What a step that compiles a tree owes: on success the tree's code and
    /// constants appended and the tree's instructions remembered, on failure
    /// the first construct that the compiler does not lower, with nothing of
    /// what was there before changed.
    spec fn compiled(
        before: Compiler,
        after: Compiler,
        result: Result<(), CompileError>,
        unsupported: Option<Construct>,
        lowered: Chunk,
        history: History,
    ) -> bool {
        match result {
            Ok(()) => {
                &&& unsupported is None
                &&& after@ == before@.followed_by(lowered)
                &&& after.history() == history
            },
            Err(error) => {
                &&& unsupported matches Some(construct) && error == CompileError::Unimplemented(
                    construct,
                )
                &&& after@.extends(before@)
            },
        }
    }

    /// What a compilation does to the code and constants emitted `before`
    /// it. If the compiler lowers all of `node`, the compilation succeeds:
    /// the code and constants of `node` are appended, and the result holds
    /// all that was emitted up to then. If not, it fails with the first
    /// construct that the compiler does not lower, and nothing is appended.
    pub open spec fn compiles(
        before: Chunk,
        node: Node,
        after: Chunk,
        result: Result<Bytecode, CompileError>,
    ) -> bool {
        match result {
            Ok(bytecode) => {
                &&& unsupported_in_node(node) is None
                &&& after == before.followed_by(
                    lower_node(node, before.code.len(), before.constants.len()),
                )
                &&& bytecode@ == after
            },
            Err(error) => {
                &&& unsupported_in_node(node) matches Some(construct) && error
                    == CompileError::Unimplemented(construct)
                &&& after == before
            },
        }
    }

    /// Compiles a compilation unit: appends its code to the instruction
    /// stream and its constants to the pool, and returns both as they then
    /// stand. If the unit holds a construct that the compiler does not
    /// lower, nothing is appended.
    pub fn compile(&mut self, node: &Node) -> (result: Result<Bytecode, CompileError>)
        ensures
            Self::compiles(old(self)@, *node, final(self)@, result),
            old(self)@.coherent() ==> final(self)@.coherent(),
            final(self).history() == if result is Ok {
                history_of_node(
                    *node,
                    old(self)@.code.len(),
                    old(self)@.constants.len(),
                    old(self).history(),
                )
            } else {
                old(self).history()
            },
    {
        let code_length = self.instructions.0.len();
        let pool_length = self.constants.len();
        let last = self.last_instruction;
        let previous = self.previous_instruction;
        let outcome = match node {
            Node::Program(p) => self.compile_statements(&p.statements),
            Node::Statement(s) => self.compile_statement(s),
            Node::Expression(e) => self.compile_expression(e),
        };
        match outcome {
            Ok(()) => {
                proof {
                    if old(self)@.coherent() {
                        lemma_compilation_keeps_coherence(old(self)@, *node);
                    }
                }
                Ok(self.bytecode())
            },
            Err(error) => {
                let ghost partial = self@;
                self.instructions.0.truncate(code_length);
                self.constants.truncate(pool_length);
                self.last_instruction = last;
                self.previous_instruction = previous;
                assert(self@.constants =~= partial.constants.subrange(0, pool_length as int));
                Err(error)
            },
        }
    }

    /// Compiles statements one after the other.
    fn compile_statements(&mut self, statements: &Vec<Statement>) -> (result: Result<
        (),
        CompileError,
    >)
        ensures
            Self::compiled(
                *old(self),
                *final(self),
                result,
                unsupported_in_statements(statements@),
                lower_statements(
                    statements@,
                    old(self)@.code.len(),
                    old(self)@.constants.len(),
                ),
                history_of_statements(
                    statements@,
                    old(self)@.code.len(),
                    old(self)@.constants.len(),
                    old(self).history(),
                ),
            ),
        decreases *statements, 0nat,
    {
        let ghost at = self@.code.len();
        let ghost k = self@.constants.len();
        let mut i: usize = 0;
        while i < statements.len()
            invariant
                i <= statements.len(),
                at == old(self)@.code.len(),
                k == old(self)@.constants.len(),
                unsupported_in_statements(statements@.take(i as int)) is None,
                self@ == old(self)@.followed_by(lower_statements(statements@.take(i as int), at, k)),
                self.history() == history_of_statements(
                    statements@.take(i as int),
                    at,
                    k,
                    old(self).history(),
                ),
            decreases statements.len() - i,
        {
            let ghost done = statements@.take(i as int);
            let ghost next = statements@.take(i + 1);
            proof {
                assert(next.drop_last() =~= done);
                assert(next.last() == statements@[i as int]);
            }
            match self.compile_statement(&statements[i]) {
                Ok(()) => {},
                Err(error) => {
                    proof {
                        lemma_unsupported_prefix(statements@, i + 1);
                    }
                    return Err(error);
                },
            }
            proof {
                let before = lower_statements(done, at, k);
                lemma_followed_by_associative(
                    old(self)@,
                    before,
                    lower_statement(
                        statements@[i as int],
                        at + before.code.len(),
                        k + before.constants.len(),
                    ),
                );
            }
            i += 1;
        }
        assert(statements@.take(statements.len() as int) =~= statements@);
        Ok(())
    }

    /// Compiles the statements of a block.
    fn compile_block_statement(&mut self, block: &BlockStatement) -> (result: Result<
        (),
        CompileError,
    >)
        ensures
            Self::compiled(
                *old(self),
                *final(self),
                result,
                unsupported_in_statements(block.statements@),
                lower_statements(
                    block.statements@,
                    old(self)@.code.len(),
                    old(self)@.constants.len(),
                ),
                history_of_statements(
                    block.statements@,
                    old(self)@.code.len(),
                    old(self)@.constants.len(),
                    old(self).history(),
                ),
            ),
        decreases *block, 0nat,
    {
        self.compile_statements(&block.statements)
    }

    /// Compiles one statement. The value of an expression statement is
    /// discarded; the value of a return statement stays on the stack.
    fn compile_statement(&mut self, s: &Statement) -> (result: Result<(), CompileError>)
        ensures
            Self::compiled(
                *old(self),
                *final(self),
                result,
                unsupported_in_statement(*s),
                lower_statement(*s, old(self)@.code.len(), old(self)@.constants.len()),
                history_of_statement(
                    *s,
                    old(self)@.code.len(),
                    old(self)@.constants.len(),
                    old(self).history(),
                ),
            ),
        decreases *s, 0nat,
    {
        match s {
            Statement::Return(r) => {
                match self.compile_expression(&r.return_value) {
                    Ok(()) => {},
                    Err(error) => {
                        return Err(error);
                    },
                }
                Ok(())
            },
            Statement::Expr(e) => {
                match self.compile_expression(e) {
                    Ok(()) => {},
                    Err(error) => {
                        return Err(error);
                    },
                }
                self.emit(Opcode::OpPop, vec![]);
                proof {
                    lemma_followed_by_associative(
                        old(self)@,
                        lower_expression(*e, old(self)@.code.len(), old(self)@.constants.len()),
                        Chunk::instruction(Opcode::OpPop, seq![]),
                    );
                }
                Ok(())
            },
            _ => Err(CompileError::Unimplemented(Construct::Assignment)),
        }
    }

    /// Compiles the operands of an infix expression: the left one first,
    /// except for `<`, where the right one comes first.
    fn compile_operands(&mut self, infix: &InfixExpression) -> (result: Result<(), CompileError>)
        ensures
            Self::compiled(
                *old(self),
                *final(self),
                result,
                unsupported_in_operands(*infix),
                lower_operands(*infix, old(self)@.code.len(), old(self)@.constants.len()),
                history_of_operands(
                    *infix,
                    old(self)@.code.len(),
                    old(self)@.constants.len(),
                    old(self).history(),
                ),
            ),
        decreases *infix, 0nat,
    {
        proof {
            reveal_strlit("<");
            assert("<"@ =~= seq!['<']);
        }
        let ghost start = self@;
        if infix.operator.is("<") {
            match self.compile_expression(&infix.right) {
                Ok(()) => {},
                Err(error) => {
                    return Err(error);
                },
            }
            let ghost first = lower_expression(*infix.right, start.code.len(), start.constants.len());
            match self.compile_expression(&infix.left) {
                Ok(()) => {},
                Err(error) => {
                    proof {
                        lemma_extends_transitive(self@, start.followed_by(first), start);
                    }
                    return Err(error);
                },
            }
            proof {
                lemma_followed_by_associative(
                    start,
                    first,
                    lower_expression(
                        *infix.left,
                        start.code.len() + first.code.len(),
                        start.constants.len() + first.constants.len(),
                    ),
                );
            }
        } else {
            match self.compile_expression(&infix.left) {
                Ok(()) => {},
                Err(error) => {
                    return Err(error);
                },
            }
            let ghost first = lower_expression(*infix.left, start.code.len(), start.constants.len());
            match self.compile_expression(&infix.right) {
                Ok(()) => {},
                Err(error) => {
                    proof {
                        lemma_extends_transitive(self@, start.followed_by(first), start);
                    }
                    return Err(error);
                },
            }
            proof {
                lemma_followed_by_associative(
                    start,
                    first,
                    lower_expression(
                        *infix.right,
                        start.code.len() + first.code.len(),
                        start.constants.len() + first.constants.len(),
                    ),
                );
            }
        }
        Ok(())
    }

    /// Compiles a block that stands for a value: if the block closes with
    /// an expression statement, the instruction that discards its value is
    /// retracted, so that the value stays on the stack.
    fn compile_block_value(&mut self, block: &BlockStatement) -> (result: Result<
        (),
        CompileError,
    >)
        requires
            ends_in_value(old(self).history(), old(self)@.code.len()),
        ensures
            Self::compiled(
                *old(self),
                *final(self),
                result,
                unsupported_in_statements(block.statements@),
                lower_block_value(
                    block.statements@,
                    old(self)@.code.len(),
                    old(self)@.constants.len(),
                ),
                history_of_block_value(
                    block.statements@,
                    old(self)@.code.len(),
                    old(self)@.constants.len(),
                    old(self).history(),
                ),
            ),
        decreases *block, 1nat,
    {
        match self.compile_block_statement(block) {
            Ok(()) => {},
            Err(error) => {
                return Err(error);
            },
        }
        proof {
            let at = old(self)@.code.len();
            let k = old(self)@.constants.len();
            lemma_block_value(block.statements@, at, k);
            if block.statements@.len() > 0 {
                lemma_statements_history(block.statements@, at, k, old(self).history());
            }
        }
        if self.last_instruction_is(Opcode::OpPop) {
            self.remove_last_pop();
            assert(self@.code =~= old(self)@.code + lower_block_value(
                block.statements@,
                old(self)@.code.len(),
                old(self)@.constants.len(),
            ).code);
        }
        Ok(())
    }

    /// Compiles a conditional. Neither jump target is known when its jump is
    /// emitted: each jump gets a placeholder as its operand, which is
    /// overwritten once the code that the jump skips has been emitted. Both
    /// branches are compiled as values.
    fn compile_conditional(&mut self, if_expression: &IfExpression) -> (result: Result<
        (),
        CompileError,
    >)
        ensures
            Self::compiled(
                *old(self),
                *final(self),
                result,
                unsupported_in_conditional(*if_expression),
                lower_conditional(
                    *if_expression,
                    old(self)@.code.len(),
                    old(self)@.constants.len(),
                ),
                history_of_conditional(
                    *if_expression,
                    old(self)@.code.len(),
                    old(self)@.constants.len(),
                    old(self).history(),
                ),
            ),
        decreases *if_expression, 0nat,
    {
        let ghost start = self@;
        let ghost at = start.code.len();
        let ghost k = start.constants.len();
        let ghost condition = lower_expression(*if_expression.condition, at, k);
        let ghost consequence = lower_block_value(
            if_expression.consequence.statements@,
            at + condition.code.len() + 3,
            k + condition.constants.len(),
        );
        let ghost alternative = match &if_expression.alternative {
            Some(block) => lower_block_value(
                block.statements@,
                at + condition.code.len() + 3 + consequence.code.len() + 3,
                k + condition.constants.len() + consequence.constants.len(),
            ),
            None => Chunk::empty(),
        };
        let ghost steps = conditional_steps(start, condition, consequence, alternative);
        proof {
            lemma_conditional_steps(start, condition, consequence, alternative);
        }

        match self.compile_expression(&if_expression.condition) {
            Ok(()) => {},
            Err(error) => {
                return Err(error);
            },
        }

        // a placeholder that is overwritten once the target is known
        let jnt_position = self.emit(Opcode::OpJumpNotTruthy, vec![9999]);
        assert(self@ == steps.branch_emitted);

        match self.compile_block_value(&if_expression.consequence) {
            Ok(()) => {},
            Err(error) => {
                proof {
                    lemma_extends_transitive(self@, steps.branch_emitted, start);
                }
                return Err(error);
            },
        }

        let j_position = self.emit(Opcode::OpJump, vec![9999]);
        assert(self@ == steps.jump_emitted);
        let after_consequence_position = self.current_instructions().0.len();
        self.change_operand(jnt_position, after_consequence_position);
        assert(self@ == steps.branch_patched);

        match &if_expression.alternative {
            None => {
                let after_consequence_position = self.instructions.0.len();
                self.change_operand(jnt_position, after_consequence_position);
                assert(self@ == steps.branch_patched);
            },
            Some(alternative) => {
                match self.compile_block_value(alternative) {
                    Ok(()) => {},
                    Err(error) => {
                        proof {
                            lemma_extends_transitive(self@, steps.branch_patched, start);
                        }
                        return Err(error);
                    },
                }
            },
        }
        assert(self@ == steps.alternative_emitted);

        let after_alternative_position = self.current_instructions().0.len();
        self.change_operand(j_position, after_alternative_position);
        assert(self@ == steps.jump_patched);
        Ok(())
    }

    /// Compiles an expression: its code leaves the expression's value on the
    /// stack.
    fn compile_expression(&mut self, e: &Expression) -> (result: Result<(), CompileError>)
        ensures
            Self::compiled(
                *old(self),
                *final(self),
                result,
                unsupported_in_expression(*e),
                lower_expression(*e, old(self)@.code.len(), old(self)@.constants.len()),
                history_of_expression(
                    *e,
                    old(self)@.code.len(),
                    old(self)@.constants.len(),
                    old(self).history(),
                ),
            ),
        decreases *e, 0nat,
    {
        let ghost start = self@;
        let ghost at = start.code.len();
        let ghost k = start.constants.len();
        match e {
            Expression::If(if_expression) => self.compile_conditional(if_expression),
            Expression::Infix(infix_expression) => {
                match self.compile_operands(infix_expression) {
                    Ok(()) => {},
                    Err(error) => {
                        return Err(error);
                    },
                }
                let opcode = match infix_operator(&infix_expression.operator) {
                    Some(opcode) => opcode,
                    None => {
                        return Err(CompileError::Unimplemented(Construct::InfixOperator));
                    },
                };
                self.emit(opcode, vec![]);
                proof {
                    lemma_followed_by_associative(
                        start,
                        lower_operands(*infix_expression, at, k),
                        Chunk::instruction(opcode, seq![]),
                    );
                }
                Ok(())
            },
            Expression::Prefix(prefix_expression) => {
                match self.compile_expression(&prefix_expression.right) {
                    Ok(()) => {},
                    Err(error) => {
                        return Err(error);
                    },
                }
                let opcode = match prefix_operator(&prefix_expression.operator) {
                    Some(opcode) => opcode,
                    None => {
                        return Err(CompileError::Unimplemented(Construct::PrefixOperator));
                    },
                };
                self.emit(opcode, vec![]);
                proof {
                    lemma_followed_by_associative(
                        start,
                        lower_expression(*prefix_expression.right, at, k),
                        Chunk::instruction(opcode, seq![]),
                    );
                }
                Ok(())
            },
            Expression::Literal(literal_expression) => match literal_expression {
                Literal::Boolean(boolean) => {
                    if boolean.value {
                        self.emit(Opcode::OpTrue, vec![]);
                    } else {
                        self.emit(Opcode::OpFalse, vec![]);
                    }
                    Ok(())
                },
                Literal::Integer(integer) => {
                    let constant = self.add_constant(Object::Integer(integer.value));
                    self.emit(Opcode::OpConst, vec![constant]);
                    proof {
                        let lowered = lower_expression(*e, at, k);
                        assert(self@.code =~= start.code + lowered.code);
                        assert(self@.constants =~= start.constants + lowered.constants);
                    }
                    Ok(())
                },
                Literal::Float(_) => Err(CompileError::Unimplemented(Construct::FloatLiteral)),
                Literal::String(_) => Err(CompileError::Unimplemented(Construct::StringLiteral)),
                Literal::Array(_) => Err(CompileError::Unimplemented(Construct::ArrayLiteral)),
            },
            Expression::Identifier(_) => Err(CompileError::Unimplemented(Construct::Identifier)),
            Expression::Function(_) => Err(CompileError::Unimplemented(Construct::FunctionLiteral)),
            Expression::Call(_) => Err(CompileError::Unimplemented(Construct::Call)),
            Expression::Index(_) => Err(CompileError::Unimplemented(Construct::Index)),
        }
    }
}

/// The opcode of a prefix operator, if the compiler knows the operator.
fn prefix_operator(operator: &Token) -> (opcode: Option<Opcode>)
    ensures
        opcode == prefix_opcode(operator@),
{
    proof {
        reveal_strlit("!");
        reveal_strlit("-");
        assert("!"@ =~= seq!['!']);
        assert("-"@ =~= seq!['-']);
    }
    if operator.is("!") {
        Some(Opcode::OpBang)
    } else if operator.is("-") {
        Some(Opcode::OpMinus)
    } else {
        None
    }
}

/// The opcode of an infix operator, if the compiler knows the operator.
fn infix_operator(operator: &Token) -> (opcode: Option<Opcode>)
    ensures
        opcode == infix_opcode(operator@),
{
    proof {
        reveal_strlit("+");
        reveal_strlit("-");
        reveal_strlit("*");
        reveal_strlit("/");
        reveal_strlit(">");
        reveal_strlit("<");
        reveal_strlit("==");
        reveal_strlit("!=");
        assert("+"@ =~= seq!['+']);
        assert("-"@ =~= seq!['-']);
        assert("*"@ =~= seq!['*']);
        assert("/"@ =~= seq!['/']);
        assert(">"@ =~= seq!['>']);
        assert("<"@ =~= seq!['<']);
        assert("=="@ =~= seq!['=', '=']);
        assert("!="@ =~= seq!['!', '=']);
    }
    if operator.is("+") {
        Some(Opcode::OpAdd)
    } else if operator.is("-") {
        Some(Opcode::OpSub)
    } else if operator.is("*") {
        Some(Opcode::OpMul)
    } else if operator.is("/") {
        Some(Opcode::OpDiv)
    } else if operator.is(">") || operator.is("<") {
        Some(Opcode::OpGreaterThan)
    } else if operator.is("==") {
        Some(Opcode::OpEqual)
    } else if operator.is("!=") {
        Some(Opcode::OpNotEqual)
    } else {
        None
    }
}

/// Overwriting the operand of an instruction in place leaves every other
/// byte of the stream as it was.
proof fn lemma_patch(head: Seq<u8>, opcode: Opcode, operand: nat, target: nat, rest: Seq<u8>)
    requires
        opcode.arity() == 1,
    ensures
        ({
            let code = head + encode(opcode, seq![operand]) + rest;
            &&& head.len() + 3 <= code.len()
            &&& Opcode::decode(code[head.len() as int]) == Some(opcode)
            &&& code.subrange(0, head.len() as int) + encode(opcode, seq![target]) + code.subrange(
                head.len() as int + 3,
                code.len() as int,
            ) == head + encode(opcode, seq![target]) + rest
        }),
{
    lemma_encode_layout(opcode, seq![operand]);
    lemma_encode_layout(opcode, seq![target]);
    lemma_decode_inverts_byte(opcode, opcode.byte());
    let code = head + encode(opcode, seq![operand]) + rest;
    assert(code[head.len() as int] == encode(opcode, seq![operand])[0]);
    assert(code.subrange(0, head.len() as int) =~= head);
    assert(code.subrange(head.len() as int + 3, code.len() as int) =~= rest);
}

/// The states that the compilation of a conditional goes through, from
/// the conditional jump on.
struct ConditionalSteps {
    /// The condition and the conditional jump with its placeholder.
    branch_emitted: Chunk,
    /// Then the consequence and the jump with its placeholder.
    jump_emitted: Chunk,
    /// Then the target of the conditional jump filled in.
    branch_patched: Chunk,
    /// Then the alternative.
    alternative_emitted: Chunk,
    /// Then the target of the jump filled in.
    jump_patched: Chunk,
}

/// The states that the compilation of a conditional goes through, given
/// what was emitted before it and the code of its parts.
spec fn conditional_steps(
    start: Chunk,
    condition: Chunk,
    consequence: Chunk,
    alternative: Chunk,
) -> ConditionalSteps {
    let branch_at = start.code.len() + condition.code.len();
    let branch_emitted = start.followed_by(condition).followed_by(
        Chunk::instruction(Opcode::OpJumpNotTruthy, seq![9999]),
    );
    let jump_at = branch_emitted.code.len() + consequence.code.len();
    let jump_emitted = branch_emitted.followed_by(consequence).followed_by(
        Chunk::instruction(Opcode::OpJump, seq![9999]),
    );
    let branch_patched = Chunk {
        code: patched(jump_emitted.code, branch_at as int, jump_emitted.code.len()),
        constants: jump_emitted.constants,
    };
    let alternative_emitted = branch_patched.followed_by(alternative);
    let jump_patched = Chunk {
        code: patched(alternative_emitted.code, jump_at as int, alternative_emitted.code.len()),
        constants: alternative_emitted.constants,
    };
    ConditionalSteps {
        branch_emitted,
        jump_emitted,
        branch_patched,
        alternative_emitted,
        jump_patched,
    }
}

/// Each jump of a conditional can be patched where it was emitted, and
/// once both are patched the code is the code of the conditional.
proof fn lemma_conditional_steps(
    start: Chunk,
    condition: Chunk,
    consequence: Chunk,
    alternative: Chunk,
)
    ensures
        ({
            let steps = conditional_steps(start, condition, consequence, alternative);
            let branch_at = (start.code.len() + condition.code.len()) as int;
            let jump_at = branch_at + 3 + consequence.code.len();
            &&& steps.branch_emitted.code.len() == branch_at + 3
            &&& steps.branch_emitted.extends(start)
            &&& steps.jump_emitted.code.len() == jump_at + 3
            &&& Opcode::decode(steps.jump_emitted.code[branch_at]) == Some(Opcode::OpJumpNotTruthy)
            &&& steps.branch_patched.code.len() == jump_at + 3
            &&& steps.branch_patched.extends(start)
            &&& Opcode::decode(steps.branch_patched.code[branch_at]) == Some(
                Opcode::OpJumpNotTruthy,
            )
            &&& patched(steps.branch_patched.code, branch_at, (jump_at + 3) as nat)
                == steps.branch_patched.code
            &&& alternative == Chunk::empty() ==> steps.alternative_emitted == steps.branch_patched
            &&& steps.alternative_emitted.code.len() == jump_at + 3 + alternative.code.len()
            &&& Opcode::decode(steps.alternative_emitted.code[jump_at]) == Some(Opcode::OpJump)
            &&& steps.jump_patched == start.followed_by(
                conditional_chunk(condition, consequence, alternative, start.code.len()),
            )
        }),
{
    let steps = conditional_steps(start, condition, consequence, alternative);
    let head = start.code + condition.code;
    let branch_at = head.len() as int;
    let jump_at = branch_at + 3 + consequence.code.len();
    let target = (jump_at + 3) as nat;
    let end = target + alternative.code.len();
    let jump = encode(Opcode::OpJump, seq![9999nat]);
    lemma_encode_layout(Opcode::OpJumpNotTruthy, seq![9999nat]);
    lemma_encode_layout(Opcode::OpJumpNotTruthy, seq![target]);
    lemma_encode_layout(Opcode::OpJump, seq![9999nat]);
    lemma_encode_layout(Opcode::OpJump, seq![end]);

    assert(steps.branch_emitted.extends(start)) by {
        assert(start.code =~= steps.branch_emitted.code.subrange(0, start.code.len() as int));
        assert(start.constants =~= steps.branch_emitted.constants.subrange(
            0,
            start.constants.len() as int,
        ));
    }

    // the conditional jump
    let middle = consequence.code + jump;
    assert(steps.jump_emitted.code =~= head + encode(Opcode::OpJumpNotTruthy, seq![9999nat])
        + middle);
    lemma_patch(head, Opcode::OpJumpNotTruthy, 9999, target, middle);
    let patched_once = head + encode(Opcode::OpJumpNotTruthy, seq![target]) + middle;
    assert(steps.branch_patched.code == patched_once);
    lemma_patch(head, Opcode::OpJumpNotTruthy, target, target, middle);
    assert(steps.branch_patched.extends(start)) by {
        assert(start.code =~= steps.branch_patched.code.subrange(0, start.code.len() as int));
        assert(start.constants =~= steps.branch_patched.constants.subrange(
            0,
            start.constants.len() as int,
        ));
    }
    if alternative == Chunk::empty() {
        assert(steps.alternative_emitted.code =~= steps.branch_patched.code);
        assert(steps.alternative_emitted.constants =~= steps.branch_patched.constants);
    }

    // the jump
    let jump_head = head + encode(Opcode::OpJumpNotTruthy, seq![target]) + consequence.code;
    assert(steps.alternative_emitted.code =~= jump_head + jump + alternative.code);
    lemma_patch(jump_head, Opcode::OpJump, 9999, end, alternative.code);

    let whole = start.followed_by(
        conditional_chunk(condition, consequence, alternative, start.code.len()),
    );
    assert(steps.jump_patched.code =~= whole.code);
    assert(steps.jump_patched.constants =~= whole.constants);
}

/// Appending is associative.
proof fn lemma_followed_by_associative(a: Chunk, b: Chunk, c: Chunk)
    ensures
        a.followed_by(b).followed_by(c) == a.followed_by(b.followed_by(c)),
{
    assert(a.followed_by(b).followed_by(c).code =~= a.followed_by(b.followed_by(c)).code);
    assert(a.followed_by(b).followed_by(c).constants =~= a.followed_by(
        b.followed_by(c),
    ).constants);
}

/// What extends an extension of a chunk extends the chunk.
proof fn lemma_extends_transitive(a: Chunk, b: Chunk, c: Chunk)
    requires
        a.extends(b),
        b.extends(c),
    ensures
        a.extends(c),
{
    assert(c.code =~= a.code.subrange(0, c.code.len() as int));
    assert(c.constants =~= a.constants.subrange(0, c.constants.len() as int));
}

/// If the first `n` statements hold a construct that the compiler does not
/// lower, then that construct is the first such in the whole list.
proof fn lemma_unsupported_prefix(statements: Seq<Statement>, n: int)
    requires
        0 <= n <= statements.len(),
        unsupported_in_statements(statements.take(n)) is Some,
    ensures
        unsupported_in_statements(statements) == unsupported_in_statements(statements.take(n)),
    decreases statements.len(),
{
    if n < statements.len() {
        assert(statements.drop_last().take(n) =~= statements.take(n));
        lemma_unsupported_prefix(statements.drop_last(), n);
    } else {
        assert(statements.take(n) =~= statements);
    }
}

} // verus!
