use tari_dan::builder::{
    encode_amount, Arg, ComponentAddress, Instruction, TemplateAddress, TransactionBuilder, TransactionSignature,
};
use tari_dan::substate_address::SubstateAddress;
use tari_dan::uint::U256;

fn sig() -> TransactionSignature {
    TransactionSignature { public_key: vec![1], signature: vec![2] }
}

fn addr(n: u32) -> SubstateAddress {
    SubstateAddress::from_u256(U256::from_u32(n))
}

#[test]
fn amounts_encode_as_cbor_integers() {
    assert_eq!(encode_amount(0), vec![0x00]);
    assert_eq!(encode_amount(23), vec![0x17]);
    assert_eq!(encode_amount(24), vec![0x18, 0x18]);
    assert_eq!(encode_amount(500), vec![0x19, 0x01, 0xf4]);
    assert_eq!(encode_amount(1_000_000), vec![0x1a, 0x00, 0x0f, 0x42, 0x40]);
    assert_eq!(encode_amount(-1), vec![0x20]);
    assert_eq!(encode_amount(-500), vec![0x39, 0x01, 0xf3]);
    assert_eq!(encode_amount(i64::MAX), vec![0x1b, 0x7f, 0xff, 0xff, 0xff, 0xff, 0xff, 0xff, 0xff]);
    assert_eq!(encode_amount(i64::MIN), vec![0x3b, 0x7f, 0xff, 0xff, 0xff, 0xff, 0xff, 0xff, 0xff]);
}

#[test]
fn signed_fields_clear_the_signature() {
    let b = TransactionBuilder::new().with_signature(sig()).add_input(addr(1));
    let tx = b.with_signature(sig()).add_output(addr(2)).with_outputs(vec![addr(3)]).build();
    assert_eq!(tx.inputs, vec![addr(1)]);
    assert!(tx.filled_inputs.is_empty());
}

#[test]
fn instructions_in_order() {
    let t = TemplateAddress { bytes: [7; 32] };
    let c = ComponentAddress { bytes: [8; 32] };
    let tx = TransactionBuilder::new()
        .call_function(t, "new", vec![Arg::Literal(vec![1])])
        .call_method(c, "deposit", vec![Arg::Workspace(vec![2])])
        .drop_all_proofs_in_workspace()
        .put_last_instruction_output_on_workspace(b"bucket".to_vec())
        .fee_transaction_pay_from_component(c, 1000)
        .with_min_epoch(Some(1))
        .with_max_epoch(Some(9))
        .add_input_ref(addr(4))
        .with_input_refs(vec![addr(5)])
        .with_inputs(vec![addr(6), addr(7)])
        .with_signature(sig())
        .build();
    assert_eq!(tx.instructions.len(), 4);
    assert!(matches!(&tx.instructions[0], Instruction::CallFunction { function, .. } if function == "new"));
    assert!(matches!(&tx.instructions[1], Instruction::CallMethod { method, .. } if method == "deposit"));
    assert!(matches!(&tx.instructions[2], Instruction::DropAllProofsInWorkspace));
    assert!(matches!(&tx.instructions[3], Instruction::PutLastInstructionOutputOnWorkspace { key } if key == b"bucket"));
    assert_eq!(tx.fee_instructions.len(), 1);
    match &tx.fee_instructions[0] {
        Instruction::CallMethod { component_address, method, args } => {
            assert_eq!(*component_address, c);
            assert_eq!(method, "take_fee");
            assert!(matches!(&args[0], Arg::Literal(bytes) if *bytes == vec![0x19, 0x03, 0xe8]));
        },
        _ => panic!("expected a fee call"),
    }
    assert_eq!(tx.min_epoch, Some(1));
    assert_eq!(tx.max_epoch, Some(9));
    assert_eq!(tx.input_refs, vec![addr(4), addr(5)]);
    assert_eq!(tx.inputs, vec![addr(6), addr(7)]);
}

#[test]
fn fee_instructions_from_a_builder() {
    let c = ComponentAddress { bytes: [8; 32] };
    let b = TransactionBuilder::new()
        .add_fee_instruction(Instruction::DropAllProofsInWorkspace)
        .with_fee_instructions_builder(|b| b.call_method(c, "pay", vec![]).drop_all_proofs_in_workspace());
    let instructions = b.with_signature(sig()).build().fee_instructions;
    assert_eq!(instructions.len(), 2);
    assert!(matches!(&instructions[0], Instruction::CallMethod { method, .. } if method == "pay"));
    let only = TransactionBuilder::new()
        .add_instruction(Instruction::DropAllProofsInWorkspace)
        .with_instructions(vec![Instruction::DropAllProofsInWorkspace])
        .build_as_instructions();
    assert_eq!(only.len(), 2);
    let replaced = TransactionBuilder::new()
        .add_fee_instruction(Instruction::DropAllProofsInWorkspace)
        .with_fee_instructions(vec![])
        .with_signature(sig())
        .build();
    assert!(replaced.fee_instructions.is_empty());
}

#[test]
fn confidential_fee_and_proof_instructions() {
    let c = ComponentAddress { bytes: [8; 32] };
    let tx = TransactionBuilder::new()
        .fee_transaction_pay_from_component_confidential(c, vec![1, 2, 3])
        .create_proof(c, vec![4, 5])
        .with_signature(sig())
        .build();
    assert!(matches!(&tx.fee_instructions[0], Instruction::CallMethod { method, args, .. }
        if method == "take_fee_confidential" && matches!(&args[0], Arg::Literal(b) if *b == vec![1, 2, 3])));
    assert!(matches!(&tx.instructions[0], Instruction::CallMethod { method, args, .. }
        if method == "create_proof_for_resource" && matches!(&args[0], Arg::Literal(b) if *b == vec![4, 5])));
}
