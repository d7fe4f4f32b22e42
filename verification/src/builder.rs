//! Building transactions: instructions, fee instructions, the substates read and written, the
//! epoch bounds, and a signature that is cleared whenever what it covers changes.
use crate::substate_address::SubstateAddress;
use vstd::prelude::*;

verus! {

/// The address of a component.
#[derive(Clone, Copy, Debug, PartialEq, Eq)]
pub struct ComponentAddress {
    pub bytes: [u8; 32],
}

/// The address of a template.
#[derive(Clone, Copy, Debug, PartialEq, Eq)]
pub struct TemplateAddress {
    pub bytes: [u8; 32],
}

/// An argument of a call: a value encoded as bytes, or a key of the workspace.
#[derive(Clone, Debug)]
pub enum Arg {
    Workspace(Vec<u8>),
    Literal(Vec<u8>),
}

/// A claim of burnt funds, encoded as bytes.
#[derive(Clone, Debug)]
pub struct ConfidentialClaim {
    pub bytes: Vec<u8>,
}

/// A signature over a transaction, encoded as bytes.
#[derive(Clone, Debug)]
pub struct TransactionSignature {
    pub public_key: Vec<u8>,
    pub signature: Vec<u8>,
}

/// One instruction of a transaction.
#[derive(Clone, Debug)]
pub enum Instruction {
    CallFunction { template_address: TemplateAddress, function: String, args: Vec<Arg> },
    CallMethod { component_address: ComponentAddress, method: String, args: Vec<Arg> },
    PutLastInstructionOutputOnWorkspace { key: Vec<u8> },
    DropAllProofsInWorkspace,
    ClaimBurn { claim: Box<ConfidentialClaim> },
}

/// A built transaction.
#[derive(Clone, Debug)]
pub struct Transaction {
    pub fee_instructions: Vec<Instruction>,
    pub instructions: Vec<Instruction>,
    pub signature: TransactionSignature,
    pub inputs: Vec<SubstateAddress>,
    pub input_refs: Vec<SubstateAddress>,
    pub filled_inputs: Vec<SubstateAddress>,
    pub min_epoch: Option<u64>,
    pub max_epoch: Option<u64>,
}

/// Builds a transaction step by step.
#[derive(Clone, Debug)]
pub struct TransactionBuilder {
    instructions: Vec<Instruction>,
    fee_instructions: Vec<Instruction>,
    signature: Option<TransactionSignature>,
    inputs: Vec<SubstateAddress>,
    input_refs: Vec<SubstateAddress>,
    outputs: Vec<SubstateAddress>,
    min_epoch: Option<u64>,
    max_epoch: Option<u64>,
}

/// What a builder holds so far.
pub struct TransactionBuilderView {
    pub instructions: Seq<Instruction>,
    pub fee_instructions: Seq<Instruction>,
    pub signature: Option<TransactionSignature>,
    pub inputs: Seq<SubstateAddress>,
    pub input_refs: Seq<SubstateAddress>,
    pub outputs: Seq<SubstateAddress>,
    pub min_epoch: Option<u64>,
    pub max_epoch: Option<u64>,
}

impl TransactionBuilderView {
    /// The same, with no signature: every change to what a signature covers clears it.
    pub open spec fn unsigned(self) -> TransactionBuilderView {
        TransactionBuilderView { signature: None, ..self }
    }

    pub open spec fn with_instructions(self, s: Seq<Instruction>) -> TransactionBuilderView {
        TransactionBuilderView { instructions: s, ..self }
    }

    pub open spec fn with_fee_instructions(self, s: Seq<Instruction>) -> TransactionBuilderView {
        TransactionBuilderView { fee_instructions: s, ..self }
    }

    pub open spec fn with_inputs(self, s: Seq<SubstateAddress>) -> TransactionBuilderView {
        TransactionBuilderView { inputs: s, ..self }
    }

    pub open spec fn with_input_refs(self, s: Seq<SubstateAddress>) -> TransactionBuilderView {
        TransactionBuilderView { input_refs: s, ..self }
    }

    pub open spec fn with_outputs(self, s: Seq<SubstateAddress>) -> TransactionBuilderView {
        TransactionBuilderView { outputs: s, ..self }
    }
}

/// What an empty builder holds.
pub open spec fn empty_builder_view() -> TransactionBuilderView {
    TransactionBuilderView {
        instructions: Seq::empty(),
        fee_instructions: Seq::empty(),
        signature: None,
        inputs: Seq::empty(),
        input_refs: Seq::empty(),
        outputs: Seq::empty(),
        min_epoch: None,
        max_epoch: None,
    }
}

impl View for TransactionBuilder {
    type V = TransactionBuilderView;

    closed spec fn view(&self) -> TransactionBuilderView {
        TransactionBuilderView {
            instructions: self.instructions@,
            fee_instructions: self.fee_instructions@,
            signature: self.signature,
            inputs: self.inputs@,
            input_refs: self.input_refs@,
            outputs: self.outputs@,
            min_epoch: self.min_epoch,
            max_epoch: self.max_epoch,
        }
    }
}

/// Appends the elements of `more` to `acc`, in order.
fn extend_vec<T>(acc: &mut Vec<T>, more: Vec<T>)
    ensures
        final(acc)@ == old(acc)@ + more@,
{
    let mut more = more;
    acc.append(&mut more);
}

/// The big-endian bytes of the lowest `k` bytes of `n`.
pub open spec fn be_bytes(n: nat, k: nat) -> Seq<u8>
    decreases k,
{
    if k == 0 {
        Seq::empty()
    } else {
        be_bytes(n / 256, (k - 1) as nat).push((n % 256) as u8)
    }
}

/// The CBOR encoding of the integer `v` (major type 0 for `v >= 0`, 1 for `v < 0` with argument
/// `-1 - v`), in its shortest form.
pub open spec fn cbor_int(v: int) -> Seq<u8> {
    let major: int = if v >= 0 {
        0
    } else {
        0x20
    };
    let n: nat = if v >= 0 {
        v as nat
    } else {
        (-1 - v) as nat
    };
    if n < 24 {
        seq![(major + n) as u8]
    } else if n < 0x100 {
        seq![(major + 24) as u8] + be_bytes(n, 1)
    } else if n < 0x1_0000 {
        seq![(major + 25) as u8] + be_bytes(n, 2)
    } else if n < 0x1_0000_0000 {
        seq![(major + 26) as u8] + be_bytes(n, 4)
    } else {
        seq![(major + 27) as u8] + be_bytes(n, 8)
    }
}

/// Whether `i` calls method `method` of `component_address` with the one literal argument
/// `arg`.
pub open spec fn is_call_with_literal(
    i: Instruction,
    component_address: ComponentAddress,
    method: Seq<char>,
    arg: Seq<u8>,
) -> bool {
    match i {
        Instruction::CallMethod { component_address: c, method: m, args: a } => {
            &&& c == component_address
            &&& m@ == method
            &&& a@.len() == 1
            &&& match a@[0] {
                Arg::Literal(bytes) => bytes@ == arg,
                _ => false,
            }
        },
        _ => false,
    }
}

/// Appends the lowest `k` bytes of `n` to `out`, most significant first.
fn push_be_bytes(out: &mut Vec<u8>, n: u64, k: u32)
    requires
        k <= 8,
    ensures
        final(out)@ == old(out)@ + be_bytes(n as nat, k as nat),
    decreases k,
{
    if k > 0 {
        push_be_bytes(out, n / 256, k - 1);
        out.push((n % 256) as u8);
        proof {
            assert((n / 256) as nat == (n as nat) / 256);
        }
    }
}

/// The CBOR encoding of an amount, as a call argument holds it.
pub fn encode_amount(v: i64) -> (r: Vec<u8>)
    ensures
        r@ == cbor_int(v as int),
{
    let major: u8 = if v >= 0 {
        0
    } else {
        0x20
    };
    let n: u64 = if v >= 0 {
        v as u64
    } else {
        (-1 - (v as i128)) as u64
    };
    let mut out: Vec<u8> = Vec::new();
    if n < 24 {
        out.push(major + n as u8);
    } else if n < 0x100 {
        out.push(major + 24);
        push_be_bytes(&mut out, n, 1);
    } else if n < 0x1_0000 {
        out.push(major + 25);
        push_be_bytes(&mut out, n, 2);
    } else if n < 0x1_0000_0000 {
        out.push(major + 26);
        push_be_bytes(&mut out, n, 4);
    } else {
        out.push(major + 27);
        push_be_bytes(&mut out, n, 8);
    }
    out
}

impl TransactionBuilder {
    /// An empty, unsigned builder.
    pub fn new() -> (r: Self)
        ensures
            r@ == empty_builder_view(),
    {
        TransactionBuilder {
            instructions: Vec::new(),
            fee_instructions: Vec::new(),
            signature: None,
            inputs: Vec::new(),
            input_refs: Vec::new(),
            outputs: Vec::new(),
            min_epoch: None,
            max_epoch: None,
        }
    }

    /// Adds a call of function `function` of the template at `template_address`.
    pub fn call_function(self, template_address: TemplateAddress, function: &str, args: Vec<Arg>) -> (r: Self)
        ensures
            r@.signature is None,
            r@.instructions.len() == self@.instructions.len() + 1,
            r@.instructions.drop_last() == self@.instructions,
            r@.instructions.last() matches Instruction::CallFunction { template_address: t, function: f, args: a }
                && t == template_address && f@ == function@ && a == args,
            r@.unsigned().with_instructions(self@.instructions) == self@.unsigned(),
    {
        let f = function.to_string();
        proof {
            broadcast use vstd::string::group_string_axioms;

        }
        self.add_instruction(Instruction::CallFunction { template_address, function: f, args })
    }

    /// Adds a call of method `method` of the component at `component_address`.
    pub fn call_method(self, component_address: ComponentAddress, method: &str, args: Vec<Arg>) -> (r: Self)
        ensures
            r@.signature is None,
            r@.instructions.len() == self@.instructions.len() + 1,
            r@.instructions.drop_last() == self@.instructions,
            r@.instructions.last() matches Instruction::CallMethod { component_address: c, method: m, args: a }
                && c == component_address && m@ == method@ && a == args,
            r@.unsigned().with_instructions(self@.instructions) == self@.unsigned(),
    {
        let m = method.to_string();
        proof {
            broadcast use vstd::string::group_string_axioms;

        }
        self.add_instruction(Instruction::CallMethod { component_address, method: m, args })
    }

    /// Adds an instruction that drops every proof in the workspace.
    pub fn drop_all_proofs_in_workspace(self) -> (r: Self)
        ensures
            r@ == self@.unsigned().with_instructions(
                self@.instructions.push(Instruction::DropAllProofsInWorkspace),
            ),
    {
        self.add_instruction(Instruction::DropAllProofsInWorkspace)
    }

    /// Adds an instruction that puts the last instruction's output on the workspace under `label`.
    pub fn put_last_instruction_output_on_workspace(self, label: Vec<u8>) -> (r: Self)
        ensures
            r@ == self@.unsigned().with_instructions(
                self@.instructions.push(Instruction::PutLastInstructionOutputOnWorkspace { key: label }),
            ),
    {
        self.add_instruction(Instruction::PutLastInstructionOutputOnWorkspace { key: label })
    }

    /// Adds an instruction that claims burnt funds.
    pub fn claim_burn(self, claim: ConfidentialClaim) -> (r: Self)
        ensures
            r@ == self@.unsigned().with_instructions(
                self@.instructions.push(Instruction::ClaimBurn { claim: Box::new(claim) }),
            ),
    {
        self.add_instruction(Instruction::ClaimBurn { claim: Box::new(claim) })
    }

    /// Adds a fee instruction that calls the "take_fee" method of a component, with `max_fee` as
    /// its argument. The method must exist and return a bucket of revealed confidential XTR, so
    /// that the fee may come from a source other than the sender's account; `max_fee` is locked
    /// up for the duration of the transaction.
    pub fn fee_transaction_pay_from_component(self, component_address: ComponentAddress, max_fee: i64) -> (r: Self)
        ensures
            r@.signature is None,
            r@.fee_instructions.len() == self@.fee_instructions.len() + 1,
            r@.fee_instructions.drop_last() == self@.fee_instructions,
            is_call_with_literal(
                r@.fee_instructions.last(),
                component_address,
                "take_fee"@,
                cbor_int(max_fee as int),
            ),
            r@.unsigned().with_fee_instructions(self@.fee_instructions) == self@.unsigned(),
    {
        let method = "take_fee".to_string();
        proof {
            broadcast use vstd::string::group_string_axioms;

        }
        let mut args: Vec<Arg> = Vec::new();
        args.push(Arg::Literal(encode_amount(max_fee)));
        self.add_fee_instruction(Instruction::CallMethod { component_address, method, args })
    }

    /// Adds a fee instruction that calls the "take_fee_confidential" method of a component, with
    /// `proof` (an encoded confidential withdraw proof) as its argument. The method must exist and
    /// return a bucket of revealed confidential XTR, so that the fee may come from a source other
    /// than the sender's account.
    pub fn fee_transaction_pay_from_component_confidential(
        self,
        component_address: ComponentAddress,
        proof: Vec<u8>,
    ) -> (r: Self)
        ensures
            r@.signature is None,
            r@.fee_instructions.len() == self@.fee_instructions.len() + 1,
            r@.fee_instructions.drop_last() == self@.fee_instructions,
            is_call_with_literal(
                r@.fee_instructions.last(),
                component_address,
                "take_fee_confidential"@,
                proof@,
            ),
            r@.unsigned().with_fee_instructions(self@.fee_instructions) == self@.unsigned(),
    {
        let method = "take_fee_confidential".to_string();
        proof {
            broadcast use vstd::string::group_string_axioms;

        }
        let mut args: Vec<Arg> = Vec::new();
        args.push(Arg::Literal(proof));
        self.add_fee_instruction(Instruction::CallMethod { component_address, method, args })
    }

    /// Adds a call of the "create_proof_for_resource" method of `account`, with `resource_addr`
    /// (an encoded resource address) as its argument.
    pub fn create_proof(self, account: ComponentAddress, resource_addr: Vec<u8>) -> (r: Self)
        ensures
            r@.signature is None,
            r@.instructions.len() == self@.instructions.len() + 1,
            r@.instructions.drop_last() == self@.instructions,
            is_call_with_literal(
                r@.instructions.last(),
                account,
                "create_proof_for_resource"@,
                resource_addr@,
            ),
            r@.unsigned().with_instructions(self@.instructions) == self@.unsigned(),
    {
        let method = "create_proof_for_resource".to_string();
        proof {
            broadcast use vstd::string::group_string_axioms;

        }
        let mut args: Vec<Arg> = Vec::new();
        args.push(Arg::Literal(resource_addr));
        self.add_instruction(Instruction::CallMethod { component_address: account, method, args })
    }

    /// Replaces the fee instructions with the instructions that `f` adds to an empty builder.
    pub fn with_fee_instructions_builder<F: FnOnce(TransactionBuilder) -> TransactionBuilder>(
        self,
        f: F,
    ) -> (r: Self)
        requires
            forall|b: TransactionBuilder| b@ == empty_builder_view() ==> f.requires((b,)),
        ensures
            exists|b: TransactionBuilder, out: TransactionBuilder|
                b@ == empty_builder_view() && f.ensures((b,), out) && r@ == self@.unsigned().with_fee_instructions(
                    out@.instructions,
                ),
    {
        let b = TransactionBuilder::new();
        let out = f(b);
        let mut this = self;
        this.fee_instructions = out.instructions;
        this.signature = None;
        this
    }

    /// Replaces the fee instructions.
    pub fn with_fee_instructions(self, instructions: Vec<Instruction>) -> (r: Self)
        ensures
            r@ == self@.unsigned().with_fee_instructions(instructions@),
    {
        let mut this = self;
        this.fee_instructions = instructions;
        this.signature = None;
        this
    }

    /// Adds a fee instruction.
    pub fn add_fee_instruction(self, instruction: Instruction) -> (r: Self)
        ensures
            r@ == self@.unsigned().with_fee_instructions(self@.fee_instructions.push(instruction)),
    {
        let mut this = self;
        this.fee_instructions.push(instruction);
        this.signature = None;
        this
    }

    /// Adds an instruction.
    pub fn add_instruction(self, instruction: Instruction) -> (r: Self)
        ensures
            r@ == self@.unsigned().with_instructions(self@.instructions.push(instruction)),
    {
        let mut this = self;
        this.instructions.push(instruction);
        this.signature = None;
        this
    }

    /// Appends instructions.
    pub fn with_instructions(self, instructions: Vec<Instruction>) -> (r: Self)
        ensures
            r@ == self@.unsigned().with_instructions(self@.instructions + instructions@),
    {
        let mut this = self;
        extend_vec(&mut this.instructions, instructions);
        this.signature = None;
        this
    }

    /// Sets the signature.
    pub fn with_signature(self, signature: TransactionSignature) -> (r: Self)
        ensures
            r@ == (TransactionBuilderView { signature: Some(signature), ..self@ }),
    {
        let mut this = self;
        this.signature = Some(signature);
        this
    }

    /// Adds an input to be consumed.
    pub fn add_input(self, input_object: SubstateAddress) -> (r: Self)
        ensures
            r@ == self@.unsigned().with_inputs(self@.inputs.push(input_object)),
    {
        let mut this = self;
        this.inputs.push(input_object);
        this.signature = None;
        this
    }

    /// Appends inputs to be consumed.
    pub fn with_inputs(self, inputs: Vec<SubstateAddress>) -> (r: Self)
        ensures
            r@ == self@.unsigned().with_inputs(self@.inputs + inputs@),
    {
        let mut this = self;
        extend_vec(&mut this.inputs, inputs);
        this.signature = None;
        this
    }

    /// Adds an input to be used without mutation.
    pub fn add_input_ref(self, input_object: SubstateAddress) -> (r: Self)
        ensures
            r@ == self@.unsigned().with_input_refs(self@.input_refs.push(input_object)),
    {
        let mut this = self;
        this.input_refs.push(input_object);
        this.signature = None;
        this
    }

    /// Appends inputs to be used without mutation.
    pub fn with_input_refs(self, inputs: Vec<SubstateAddress>) -> (r: Self)
        ensures
            r@ == self@.unsigned().with_input_refs(self@.input_refs + inputs@),
    {
        let mut this = self;
        extend_vec(&mut this.input_refs, inputs);
        this.signature = None;
        this
    }

    /// Adds an output; outputs are not covered by the signature.
    pub fn add_output(self, output_object: SubstateAddress) -> (r: Self)
        ensures
            r@ == self@.with_outputs(self@.outputs.push(output_object)),
    {
        let mut this = self;
        this.outputs.push(output_object);
        this
    }

    /// Appends outputs; outputs are not covered by the signature.
    pub fn with_outputs(self, outputs: Vec<SubstateAddress>) -> (r: Self)
        ensures
            r@ == self@.with_outputs(self@.outputs + outputs@),
    {
        let mut this = self;
        extend_vec(&mut this.outputs, outputs);
        this
    }

    /// Adds an output reference, held with the outputs.
    pub fn add_output_ref(self, output_object: SubstateAddress) -> (r: Self)
        ensures
            r@ == self@.with_outputs(self@.outputs.push(output_object)),
    {
        let mut this = self;
        this.outputs.push(output_object);
        this
    }

    /// Sets the first epoch in which the transaction is valid.
    pub fn with_min_epoch(self, min_epoch: Option<u64>) -> (r: Self)
        ensures
            r@ == (TransactionBuilderView { min_epoch, ..self@.unsigned() }),
    {
        let mut this = self;
        this.min_epoch = min_epoch;
        this.signature = None;
        this
    }

    /// Sets the last epoch in which the transaction is valid.
    pub fn with_max_epoch(self, max_epoch: Option<u64>) -> (r: Self)
        ensures
            r@ == (TransactionBuilderView { max_epoch, ..self@.unsigned() }),
    {
        let mut this = self;
        this.max_epoch = max_epoch;
        this.signature = None;
        this
    }

    /// The instructions alone.
    pub fn build_as_instructions(self) -> (r: Vec<Instruction>)
        ensures
            r@ == self@.instructions,
    {
        self.instructions
    }

    /// The transaction; the builder must be signed.
    pub fn build(self) -> (r: Transaction)
        requires
            self@.signature is Some,
        ensures
            r.fee_instructions@ == self@.fee_instructions,
            r.instructions@ == self@.instructions,
            Some(r.signature) == self@.signature,
            r.inputs@ == self@.inputs,
            r.input_refs@ == self@.input_refs,
            r.filled_inputs@ == Seq::<SubstateAddress>::empty(),
            r.min_epoch == self@.min_epoch,
            r.max_epoch == self@.max_epoch,
    {
        let signature = self.signature.unwrap();
        Transaction {
            fee_instructions: self.fee_instructions,
            instructions: self.instructions,
            signature,
            inputs: self.inputs,
            input_refs: self.input_refs,
            filled_inputs: Vec::new(),
            min_epoch: self.min_epoch,
            max_epoch: self.max_epoch,
        }
    }
}

} // verus!
