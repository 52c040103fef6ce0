//! The LLVM module under construction, as the generator sees it.
//!
//! inkwell's `Module` and `Builder` change through shared references, so they
//! are held together in `IrModule`, whose methods take `&mut self`. Its
//! contents are named by `ir_log`: every request made of LLVM, in order, with
//! the handles it involves given as indices into the tables that `IrModule`
//! keeps (the n-th value, the n-th block, ...). What LLVM holds is a function
//! of that sequence.

use vstd::prelude::*;
use inkwell::basic_block::BasicBlock;
use inkwell::builder::{Builder, BuilderError};
use inkwell::context::Context;
use inkwell::module::Module as LlvmModule;
use inkwell::types::{FunctionType, IntType, VoidType};
use inkwell::values::{FunctionValue, InstructionValue, IntValue, PointerValue};
use inkwell::IntPredicate;

verus! {

/// An integer comparison, signed where it orders.
#[derive(Debug, Clone, Copy, PartialEq, Eq, Structural)]
pub enum IntPred {
    Eq,
    Ne,
    Slt,
    Sle,
    Sgt,
    Sge,
}

/// The LLVM integer types that generation uses: `i32`, and `i1` for booleans.
#[derive(Debug, Clone, Copy, PartialEq, Eq, Structural)]
pub enum ValTy {
    I32,
    Bool,
}

/// One request made of LLVM. Handles are indices into the table of their
/// kind (see `Table`).
pub enum IrOp {
    /// A new module named `name`, with a builder that is not positioned.
    Module { name: Seq<char> },
    SourceFileName { name: Seq<char> },
    /// The integer type `ty` of the context.
    IntType { ty: ValTy },
    VoidType,
    /// The type of a function of one parameter `param` that returns `ret`.
    VoidFnType { ret: nat, param: nat },
    /// The type of a function without parameters that returns `ret`.
    IntFnType { ret: nat },
    AddFunction { name: Seq<char>, ty: nat },
    /// A new empty block at the end of `function`.
    AppendBlock { function: nat, name: Seq<char> },
    PositionAtEnd { block: nat },
    /// A look at the first instruction of `block`; `found` says whether it has one.
    FirstInstruction { block: nat, found: bool },
    PositionBefore { inst: nat },
    ConstInt { ty: nat, value: u64, sign_extend: bool },
    Alloca { ty: nat, name: Seq<char> },
    Load { slot: nat, name: Seq<char> },
    Store { slot: nat, value: nat },
    Add { lhs: nat, rhs: nat, name: Seq<char> },
    Compare { pred: IntPred, lhs: nat, rhs: nat, name: Seq<char> },
    Call { function: nat, arg: nat },
    Ret { value: nat },
    Br { dest: nat },
    CondBr { cond: nat, then_dest: nat, else_dest: nat },
}

/// The kinds of handle that requests give back.
#[derive(PartialEq, Eq, Structural)]
pub enum Table {
    IntTypes,
    VoidTypes,
    FnTypes,
    Functions,
    Blocks,
    Insts,
    Values,
    Slots,
}

/// The table that `op` adds a handle to, if any.
pub open spec fn op_table(op: IrOp) -> Option<Table> {
    match op {
        IrOp::IntType { .. } => Some(Table::IntTypes),
        IrOp::VoidType => Some(Table::VoidTypes),
        IrOp::VoidFnType { .. } => Some(Table::FnTypes),
        IrOp::IntFnType { .. } => Some(Table::FnTypes),
        IrOp::AddFunction { .. } => Some(Table::Functions),
        IrOp::AppendBlock { .. } => Some(Table::Blocks),
        IrOp::FirstInstruction { found, .. } => if found {
            Some(Table::Insts)
        } else {
            None
        },
        IrOp::ConstInt { .. } => Some(Table::Values),
        IrOp::Load { .. } => Some(Table::Values),
        IrOp::Add { .. } => Some(Table::Values),
        IrOp::Compare { .. } => Some(Table::Values),
        IrOp::Alloca { .. } => Some(Table::Slots),
        _ => None,
    }
}

/// How many handles of kind `t` the requests in `log` gave back.
pub open spec fn count(log: Seq<IrOp>, t: Table) -> nat
    decreases log.len(),
{
    if log.len() == 0 {
        0
    } else {
        count(log.drop_last(), t) + if op_table(log.last()) == Some(t) {
            1nat
        } else {
            0nat
        }
    }
}

pub open spec fn is_position(op: IrOp) -> bool {
    op is PositionAtEnd || op is PositionBefore
}

/// Whether the builder has been given a position.
pub open spec fn positioned(log: Seq<IrOp>) -> bool
    decreases log.len(),
{
    log.len() > 0 && (is_position(log.last()) || positioned(log.drop_last()))
}

pub broadcast proof fn lemma_count_push(log: Seq<IrOp>, op: IrOp, t: Table)
    ensures
        #[trigger] count(log.push(op), t) == count(log, t) + if op_table(op) == Some(t) {
            1nat
        } else {
            0nat
        },
{
    assert(log.push(op).drop_last() =~= log);
}

pub broadcast proof fn lemma_positioned_push(log: Seq<IrOp>, op: IrOp)
    ensures
        #[trigger] positioned(log.push(op)) == (positioned(log) || is_position(op)),
{
    assert(log.push(op).drop_last() =~= log);
}

pub broadcast group group_ir_log {
    lemma_count_push,
    lemma_positioned_push,
}

/// The module being built, its builder, and the handles given out so far.
#[verifier::external_body]
pub struct IrModule<'ctx> {
    context: &'ctx Context,
    module: LlvmModule<'ctx>,
    builder: Builder<'ctx>,
    int_types: Vec<IntType<'ctx>>,
    void_types: Vec<VoidType<'ctx>>,
    fn_types: Vec<FunctionType<'ctx>>,
    functions: Vec<FunctionValue<'ctx>>,
    blocks: Vec<BasicBlock<'ctx>>,
    insts: Vec<InstructionValue<'ctx>>,
    values: Vec<IntValue<'ctx>>,
    slots: Vec<PointerValue<'ctx>>,
}

/// The requests made of the module `m` since it was created, in order.
pub uninterp spec fn ir_log(m: IrModule) -> Seq<IrOp>;

/// Whether `block` holds an instruction, in the module that `log` built
/// (`BasicBlock::get_first_instruction` is `Some`).
pub uninterp spec fn block_has_instruction(log: Seq<IrOp>, block: nat) -> bool;

/// The textual IR that LLVM prints for the module that `log` built.
pub uninterp spec fn ir_text(log: Seq<IrOp>) -> Seq<char>;

/// Whether LLVM's verifier accepts the module that `log` built.
pub uninterp spec fn llvm_verifies(log: Seq<IrOp>) -> bool;

impl<'ctx> IrModule<'ctx> {
    /// `Context::create_module` and `Context::create_builder`: an empty module
    /// named `name` and a builder for it, not positioned yet.
    #[verifier::external_body]
    pub fn create(context: &'ctx Context, name: &str) -> (r: IrModule<'ctx>)
        ensures
            ir_log(r) == seq![IrOp::Module { name: name@ }],
    {
        IrModule {
            context,
            module: context.create_module(name),
            builder: context.create_builder(),
            int_types: Vec::new(),
            void_types: Vec::new(),
            fn_types: Vec::new(),
            functions: Vec::new(),
            blocks: Vec::new(),
            insts: Vec::new(),
            values: Vec::new(),
            slots: Vec::new(),
        }
    }

    /// `Module::set_source_file_name`.
    #[verifier::external_body]
    pub fn set_source_file_name(&mut self, name: &str)
        ensures
            ir_log(*final(self)) == ir_log(*old(self)).push(IrOp::SourceFileName { name: name@ }),
    {
        self.module.set_source_file_name(name)
    }

    /// `Context::i32_type`.
    #[verifier::external_body]
    pub fn i32_type(&mut self) -> (r: usize)
        ensures
            ir_log(*final(self)) == ir_log(*old(self)).push(IrOp::IntType { ty: ValTy::I32 }),
            r == count(ir_log(*old(self)), Table::IntTypes),
    {
        let k = self.int_types.len();
        self.int_types.push(self.context.i32_type());
        k
    }

    /// `Context::bool_type`: the 1-bit integer type.
    #[verifier::external_body]
    pub fn bool_type(&mut self) -> (r: usize)
        ensures
            ir_log(*final(self)) == ir_log(*old(self)).push(IrOp::IntType { ty: ValTy::Bool }),
            r == count(ir_log(*old(self)), Table::IntTypes),
    {
        let k = self.int_types.len();
        self.int_types.push(self.context.bool_type());
        k
    }

    /// `Context::void_type`.
    #[verifier::external_body]
    pub fn void_type(&mut self) -> (r: usize)
        ensures
            ir_log(*final(self)) == ir_log(*old(self)).push(IrOp::VoidType),
            r == count(ir_log(*old(self)), Table::VoidTypes),
    {
        let k = self.void_types.len();
        self.void_types.push(self.context.void_type());
        k
    }

    /// `VoidType::fn_type`, with the one parameter `param` and not variadic.
    #[verifier::external_body]
    pub fn void_fn_type(&mut self, ret: usize, param: usize) -> (r: usize)
        requires
            ret < count(ir_log(*old(self)), Table::VoidTypes),
            param < count(ir_log(*old(self)), Table::IntTypes),
        ensures
            ir_log(*final(self)) == ir_log(*old(self)).push(IrOp::VoidFnType { ret: ret as nat, param: param as nat }),
            r == count(ir_log(*old(self)), Table::FnTypes),
    {
        let k = self.fn_types.len();
        self.fn_types.push(self.void_types[ret].fn_type(&[self.int_types[param].into()], false));
        k
    }

    /// `IntType::fn_type`, without parameters and not variadic.
    #[verifier::external_body]
    pub fn int_fn_type(&mut self, ret: usize) -> (r: usize)
        requires
            ret < count(ir_log(*old(self)), Table::IntTypes),
        ensures
            ir_log(*final(self)) == ir_log(*old(self)).push(IrOp::IntFnType { ret: ret as nat }),
            r == count(ir_log(*old(self)), Table::FnTypes),
    {
        let k = self.fn_types.len();
        self.fn_types.push(self.int_types[ret].fn_type(&[], false));
        k
    }

    /// `Module::add_function`, without a linkage.
    #[verifier::external_body]
    pub fn add_function(&mut self, name: &str, ty: usize) -> (r: usize)
        requires
            ty < count(ir_log(*old(self)), Table::FnTypes),
        ensures
            ir_log(*final(self)) == ir_log(*old(self)).push(IrOp::AddFunction { name: name@, ty: ty as nat }),
            r == count(ir_log(*old(self)), Table::Functions),
    {
        let k = self.functions.len();
        self.functions.push(self.module.add_function(name, self.fn_types[ty], None));
        k
    }

    /// `Context::append_basic_block`: a new empty block at the end of `function`.
    #[verifier::external_body]
    pub fn append_basic_block(&mut self, function: usize, name: &str) -> (r: usize)
        requires
            function < count(ir_log(*old(self)), Table::Functions),
        ensures
            ir_log(*final(self)) == ir_log(*old(self)).push(
                IrOp::AppendBlock { function: function as nat, name: name@ },
            ),
            r == count(ir_log(*old(self)), Table::Blocks),
    {
        let k = self.blocks.len();
        self.blocks.push(self.context.append_basic_block(self.functions[function], name));
        k
    }

    /// `Builder::position_at_end`.
    #[verifier::external_body]
    pub fn position_at_end(&mut self, block: usize)
        requires
            block < count(ir_log(*old(self)), Table::Blocks),
        ensures
            ir_log(*final(self)) == ir_log(*old(self)).push(IrOp::PositionAtEnd { block: block as nat }),
    {
        self.builder.position_at_end(self.blocks[block])
    }

    /// `BasicBlock::get_first_instruction`.
    #[verifier::external_body]
    pub fn first_instruction(&mut self, block: usize) -> (r: Option<usize>)
        requires
            block < count(ir_log(*old(self)), Table::Blocks),
        ensures
            ir_log(*final(self)) == ir_log(*old(self)).push(
                IrOp::FirstInstruction {
                    block: block as nat,
                    found: block_has_instruction(ir_log(*old(self)), block as nat),
                },
            ),
            match r {
                Some(k) => block_has_instruction(ir_log(*old(self)), block as nat) && k == count(
                    ir_log(*old(self)),
                    Table::Insts,
                ),
                None => !block_has_instruction(ir_log(*old(self)), block as nat),
            },
    {
        let k = self.insts.len();
        match self.blocks[block].get_first_instruction() {
            Some(inst) => {
                self.insts.push(inst);
                Some(k)
            },
            None => None,
        }
    }

    /// `Builder::position_before`.
    #[verifier::external_body]
    pub fn position_before(&mut self, inst: usize)
        requires
            inst < count(ir_log(*old(self)), Table::Insts),
        ensures
            ir_log(*final(self)) == ir_log(*old(self)).push(IrOp::PositionBefore { inst: inst as nat }),
    {
        self.builder.position_before(&self.insts[inst])
    }

    /// `IntType::const_int`.
    #[verifier::external_body]
    pub fn const_int(&mut self, ty: usize, value: u64, sign_extend: bool) -> (r: usize)
        requires
            ty < count(ir_log(*old(self)), Table::IntTypes),
        ensures
            ir_log(*final(self)) == ir_log(*old(self)).push(
                IrOp::ConstInt { ty: ty as nat, value, sign_extend },
            ),
            r == count(ir_log(*old(self)), Table::Values),
    {
        let k = self.values.len();
        self.values.push(self.int_types[ty].const_int(value, sign_extend));
        k
    }

    /// `Builder::build_alloca`.
    #[verifier::external_body]
    pub fn build_alloca(&mut self, ty: usize, name: &str) -> (r: Result<usize, BuilderError>)
        requires
            ty < count(ir_log(*old(self)), Table::IntTypes),
        ensures
            built_index(
                ir_log(*old(self)),
                ir_log(*final(self)),
                r,
                IrOp::Alloca { ty: ty as nat, name: name@ },
                Table::Slots,
            ),
    {
        let ptr = self.builder.build_alloca(self.int_types[ty], name)?;
        let k = self.slots.len();
        self.slots.push(ptr);
        Ok(k)
    }

    /// `Builder::build_load`; every slot holds an integer, so the loaded
    /// value is one.
    #[verifier::external_body]
    pub fn build_load(&mut self, slot: usize, name: &str) -> (r: Result<usize, BuilderError>)
        requires
            slot < count(ir_log(*old(self)), Table::Slots),
        ensures
            built_index(
                ir_log(*old(self)),
                ir_log(*final(self)),
                r,
                IrOp::Load { slot: slot as nat, name: name@ },
                Table::Values,
            ),
    {
        let v = self.builder.build_load(self.slots[slot], name)?.into_int_value();
        let k = self.values.len();
        self.values.push(v);
        Ok(k)
    }

    /// `Builder::build_store`.
    #[verifier::external_body]
    pub fn build_store(&mut self, slot: usize, value: usize) -> (r: Result<(), BuilderError>)
        requires
            slot < count(ir_log(*old(self)), Table::Slots),
            value < count(ir_log(*old(self)), Table::Values),
        ensures
            built(
                ir_log(*old(self)),
                ir_log(*final(self)),
                r,
                IrOp::Store { slot: slot as nat, value: value as nat },
                (),
            ),
    {
        self.builder.build_store(self.slots[slot], self.values[value])?;
        Ok(())
    }

    /// `Builder::build_int_add`.
    #[verifier::external_body]
    pub fn build_int_add(&mut self, lhs: usize, rhs: usize, name: &str) -> (r: Result<usize, BuilderError>)
        requires
            lhs < count(ir_log(*old(self)), Table::Values),
            rhs < count(ir_log(*old(self)), Table::Values),
        ensures
            built_index(
                ir_log(*old(self)),
                ir_log(*final(self)),
                r,
                IrOp::Add { lhs: lhs as nat, rhs: rhs as nat, name: name@ },
                Table::Values,
            ),
    {
        let v = self.builder.build_int_add(self.values[lhs], self.values[rhs], name)?;
        let k = self.values.len();
        self.values.push(v);
        Ok(k)
    }

    /// `Builder::build_int_compare` with `IntPredicate::EQ`.
    #[verifier::external_body]
    pub fn build_compare_eq(&mut self, lhs: usize, rhs: usize, name: &str) -> (r: Result<usize, BuilderError>)
        requires
            lhs < count(ir_log(*old(self)), Table::Values),
            rhs < count(ir_log(*old(self)), Table::Values),
        ensures
            built_index(
                ir_log(*old(self)),
                ir_log(*final(self)),
                r,
                IrOp::Compare { pred: IntPred::Eq, lhs: lhs as nat, rhs: rhs as nat, name: name@ },
                Table::Values,
            ),
    {
        let v = self.builder.build_int_compare(IntPredicate::EQ, self.values[lhs], self.values[rhs], name)?;
        let k = self.values.len();
        self.values.push(v);
        Ok(k)
    }

    /// `Builder::build_int_compare` with `IntPredicate::NE`.
    #[verifier::external_body]
    pub fn build_compare_ne(&mut self, lhs: usize, rhs: usize, name: &str) -> (r: Result<usize, BuilderError>)
        requires
            lhs < count(ir_log(*old(self)), Table::Values),
            rhs < count(ir_log(*old(self)), Table::Values),
        ensures
            built_index(
                ir_log(*old(self)),
                ir_log(*final(self)),
                r,
                IrOp::Compare { pred: IntPred::Ne, lhs: lhs as nat, rhs: rhs as nat, name: name@ },
                Table::Values,
            ),
    {
        let v = self.builder.build_int_compare(IntPredicate::NE, self.values[lhs], self.values[rhs], name)?;
        let k = self.values.len();
        self.values.push(v);
        Ok(k)
    }

    /// `Builder::build_int_compare` with `IntPredicate::SLT`.
    #[verifier::external_body]
    pub fn build_compare_slt(&mut self, lhs: usize, rhs: usize, name: &str) -> (r: Result<usize, BuilderError>)
        requires
            lhs < count(ir_log(*old(self)), Table::Values),
            rhs < count(ir_log(*old(self)), Table::Values),
        ensures
            built_index(
                ir_log(*old(self)),
                ir_log(*final(self)),
                r,
                IrOp::Compare { pred: IntPred::Slt, lhs: lhs as nat, rhs: rhs as nat, name: name@ },
                Table::Values,
            ),
    {
        let v = self.builder.build_int_compare(IntPredicate::SLT, self.values[lhs], self.values[rhs], name)?;
        let k = self.values.len();
        self.values.push(v);
        Ok(k)
    }

    /// `Builder::build_int_compare` with `IntPredicate::SLE`.
    #[verifier::external_body]
    pub fn build_compare_sle(&mut self, lhs: usize, rhs: usize, name: &str) -> (r: Result<usize, BuilderError>)
        requires
            lhs < count(ir_log(*old(self)), Table::Values),
            rhs < count(ir_log(*old(self)), Table::Values),
        ensures
            built_index(
                ir_log(*old(self)),
                ir_log(*final(self)),
                r,
                IrOp::Compare { pred: IntPred::Sle, lhs: lhs as nat, rhs: rhs as nat, name: name@ },
                Table::Values,
            ),
    {
        let v = self.builder.build_int_compare(IntPredicate::SLE, self.values[lhs], self.values[rhs], name)?;
        let k = self.values.len();
        self.values.push(v);
        Ok(k)
    }

    /// `Builder::build_int_compare` with `IntPredicate::SGT`.
    #[verifier::external_body]
    pub fn build_compare_sgt(&mut self, lhs: usize, rhs: usize, name: &str) -> (r: Result<usize, BuilderError>)
        requires
            lhs < count(ir_log(*old(self)), Table::Values),
            rhs < count(ir_log(*old(self)), Table::Values),
        ensures
            built_index(
                ir_log(*old(self)),
                ir_log(*final(self)),
                r,
                IrOp::Compare { pred: IntPred::Sgt, lhs: lhs as nat, rhs: rhs as nat, name: name@ },
                Table::Values,
            ),
    {
        let v = self.builder.build_int_compare(IntPredicate::SGT, self.values[lhs], self.values[rhs], name)?;
        let k = self.values.len();
        self.values.push(v);
        Ok(k)
    }

    /// `Builder::build_int_compare` with `IntPredicate::SGE`.
    #[verifier::external_body]
    pub fn build_compare_sge(&mut self, lhs: usize, rhs: usize, name: &str) -> (r: Result<usize, BuilderError>)
        requires
            lhs < count(ir_log(*old(self)), Table::Values),
            rhs < count(ir_log(*old(self)), Table::Values),
        ensures
            built_index(
                ir_log(*old(self)),
                ir_log(*final(self)),
                r,
                IrOp::Compare { pred: IntPred::Sge, lhs: lhs as nat, rhs: rhs as nat, name: name@ },
                Table::Values,
            ),
    {
        let v = self.builder.build_int_compare(IntPredicate::SGE, self.values[lhs], self.values[rhs], name)?;
        let k = self.values.len();
        self.values.push(v);
        Ok(k)
    }

    /// `Builder::build_call` of `function` with the one argument `arg`; its
    /// result, if any, is not used.
    #[verifier::external_body]
    pub fn build_call(&mut self, function: usize, arg: usize) -> (r: Result<(), BuilderError>)
        requires
            function < count(ir_log(*old(self)), Table::Functions),
            arg < count(ir_log(*old(self)), Table::Values),
        ensures
            built(
                ir_log(*old(self)),
                ir_log(*final(self)),
                r,
                IrOp::Call { function: function as nat, arg: arg as nat },
                (),
            ),
    {
        self.builder.build_call(self.functions[function], &[self.values[arg].into()], "")?;
        Ok(())
    }

    /// `Builder::build_return` of a value.
    #[verifier::external_body]
    pub fn build_return(&mut self, value: usize) -> (r: Result<(), BuilderError>)
        requires
            value < count(ir_log(*old(self)), Table::Values),
        ensures
            built(ir_log(*old(self)), ir_log(*final(self)), r, IrOp::Ret { value: value as nat }, ()),
    {
        self.builder.build_return(Some(&self.values[value]))?;
        Ok(())
    }

    /// `Builder::build_unconditional_branch`.
    #[verifier::external_body]
    pub fn build_unconditional_branch(&mut self, dest: usize) -> (r: Result<(), BuilderError>)
        requires
            dest < count(ir_log(*old(self)), Table::Blocks),
        ensures
            built(ir_log(*old(self)), ir_log(*final(self)), r, IrOp::Br { dest: dest as nat }, ()),
    {
        self.builder.build_unconditional_branch(self.blocks[dest])?;
        Ok(())
    }

    /// `Builder::build_conditional_branch`.
    #[verifier::external_body]
    pub fn build_conditional_branch(&mut self, cond: usize, then_dest: usize, else_dest: usize) -> (r: Result<(), BuilderError>)
        requires
            cond < count(ir_log(*old(self)), Table::Values),
            then_dest < count(ir_log(*old(self)), Table::Blocks),
            else_dest < count(ir_log(*old(self)), Table::Blocks),
        ensures
            built(
                ir_log(*old(self)),
                ir_log(*final(self)),
                r,
                IrOp::CondBr { cond: cond as nat, then_dest: then_dest as nat, else_dest: else_dest as nat },
                (),
            ),
    {
        self.builder.build_conditional_branch(self.values[cond], self.blocks[then_dest], self.blocks[else_dest])?;
        Ok(())
    }

    /// `Module::verify`, with LLVM's message as text.
    #[verifier::external_body]
    pub fn verify(&self) -> (r: Result<(), String>)
        ensures
            r is Ok == llvm_verifies(ir_log(*self)),
    {
        match self.module.verify() {
            Ok(()) => Ok(()),
            Err(e) => Err(e.to_string()),
        }
    }

    /// `Module::print_to_string`: the module's textual IR.
    #[verifier::external_body]
    pub fn print_to_string(&self) -> (r: String)
        ensures
            r@ == ir_text(ir_log(*self)),
    {
        self.module.print_to_string().to_string()
    }

    /// The LLVM module itself, for writing it out.
    #[verifier::external_body]
    pub fn into_module(self) -> (r: LlvmModule<'ctx>)
    {
        self.module
    }
}

/// The outcome of a `build_*` request: it is made once the builder has a
/// position; before that it is refused and nothing changes.
pub open spec fn built<T>(before: Seq<IrOp>, after: Seq<IrOp>, r: Result<T, BuilderError>, op: IrOp, ok: T) -> bool {
    if positioned(before) {
        r == Ok::<T, BuilderError>(ok) && after == before.push(op)
    } else {
        r is Err && after == before
    }
}

/// As `built`, for a request that gives back a new handle of kind `t`.
pub open spec fn built_index(before: Seq<IrOp>, after: Seq<IrOp>, r: Result<usize, BuilderError>, op: IrOp, t: Table) -> bool {
    if positioned(before) {
        r matches Ok(k) && k == count(before, t) && after == before.push(op)
    } else {
        r is Err && after == before
    }
}

/// The `Display` text of a `BuilderError`.
#[verifier::external_body]
pub fn builder_error_text(e: &BuilderError) -> String {
    e.to_string()
}

} // verus!
