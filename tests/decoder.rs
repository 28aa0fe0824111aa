use solana_monitor::decoder::{
    create_match_params, extract_params, hex_string, DecodedField, DecodedInstruction,
    DecodedPayload, Decoder, FieldValue, InstructionDecoder, InstructionType,
};
use solana_monitor::filter::SolanaFilterHelpers;
use solana_monitor::model::{AccountMeta, Instruction, Pubkey};

fn key(b: u8) -> Pubkey {
    Pubkey([b; 32])
}

fn text(k: &Pubkey) -> String {
    solana_pubkey::Pubkey::new_from_array(k.0).to_string()
}

fn open_dca(program: Pubkey, fields: Vec<DecodedField>, roles: Vec<String>) -> DecodedInstruction {
    DecodedInstruction {
        program_id: program,
        data: InstructionType::Decoded(DecodedPayload {
            program: "JupiterDCA".to_string(),
            operation: "OpenDca".to_string(),
            fields,
            account_roles: roles,
        }),
        accounts: vec![
            AccountMeta { pubkey: key(7), is_signer: true, is_writable: true },
            AccountMeta { pubkey: key(8), is_signer: false, is_writable: false },
        ],
    }
}

#[test]
fn test_matches_instruction_type() {
    let d = open_dca(key(1), vec![], vec![]);
    assert!(SolanaFilterHelpers::matches_instruction_type(&d, "OpenDca"));
    assert!(!SolanaFilterHelpers::matches_instruction_type(&d, "CloseDca"));
    let unknown = DecodedInstruction { program_id: key(1), data: InstructionType::Unknown, accounts: vec![] };
    assert!(!SolanaFilterHelpers::matches_instruction_type(&unknown, "Unknown"));
}

#[test]
fn test_create_match_params() {
    let program = key(3);
    let payload = InstructionType::Decoded(DecodedPayload {
        program: "JupiterDCA".to_string(),
        operation: "OpenDca".to_string(),
        fields: vec![
            DecodedField { name: "in_amount".to_string(), value: FieldValue::U64(5_000_000) },
            DecodedField { name: "cycle_frequency".to_string(), value: FieldValue::I64(-60) },
            DecodedField { name: "close_wsol_in_ata".to_string(), value: FieldValue::Bool(true) },
            DecodedField { name: "memo".to_string(), value: FieldValue::Text("hi".to_string()) },
            DecodedField { name: "raw".to_string(), value: FieldValue::Bytes(vec![0xde, 0xad, 0x01]) },
            DecodedField { name: "idx".to_string(), value: FieldValue::U8(9) },
            DecodedField { name: "big".to_string(), value: FieldValue::U128(u128::MAX) },
            DecodedField { name: "owner".to_string(), value: FieldValue::Key(key(4)) },
        ],
        account_roles: vec![],
    });
    let params = create_match_params(&program, &payload);
    let view: Vec<(String, String, String)> = params
        .iter()
        .map(|p| (p.name.clone(), p.value.clone(), p.kind.clone()))
        .collect();
    assert_eq!(
        view,
        vec![
            ("program_id".to_string(), text(&program), "pubkey".to_string()),
            ("in_amount".to_string(), "5000000".to_string(), "u64".to_string()),
            ("cycle_frequency".to_string(), "-60".to_string(), "i64".to_string()),
            ("close_wsol_in_ata".to_string(), "true".to_string(), "bool".to_string()),
            ("memo".to_string(), "hi".to_string(), "string".to_string()),
            ("raw".to_string(), "dead01".to_string(), "bytes".to_string()),
            ("idx".to_string(), "9".to_string(), "u8".to_string()),
            ("big".to_string(), u128::MAX.to_string(), "u128".to_string()),
            ("owner".to_string(), text(&key(4)), "pubkey".to_string()),
        ]
    );
    assert!(params.iter().all(|p| !p.indexed));
    let unknown = create_match_params(&program, &InstructionType::Unknown);
    assert_eq!(unknown.len(), 1);
    assert_eq!(unknown[0].name, "program_id");
}

#[test]
fn pubkey_entries_use_base58_text() {
    let program = key(0);
    let params = create_match_params(&program, &InstructionType::Unknown);
    assert_eq!(params[0].value, "11111111111111111111111111111111");
    assert_ne!(params[0].value, String::from_utf8_lossy(&program.0).to_string());
}

#[test]
fn accounts_are_named_by_role_or_position() {
    let with_roles = extract_params(&open_dca(key(1), vec![], vec!["user".to_string()]));
    let names: Vec<&str> = with_roles.iter().map(|p| p.name.as_str()).collect();
    assert_eq!(names, vec!["program_id", "user", "account_1"]);
    assert_eq!(with_roles[1].value, text(&key(7)));
    assert_eq!(with_roles[2].kind, "pubkey");
    let plain = extract_params(&open_dca(key(1), vec![], vec![]));
    let names: Vec<&str> = plain.iter().map(|p| p.name.as_str()).collect();
    assert_eq!(names, vec!["program_id", "account_0", "account_1"]);
}

#[test]
fn hex_is_lowercase_two_digits_per_byte() {
    assert_eq!(hex_string(&vec![]), "");
    assert_eq!(hex_string(&vec![0x00, 0x0f, 0xa0, 0xff]), "000fa0ff");
}

struct Fixed {
    program: Pubkey,
    operation: &'static str,
}

impl InstructionDecoder for Fixed {
    fn decoded(&self, instruction: Instruction) -> Option<DecodedInstruction> {
        self.decode_instruction(&instruction)
    }

    fn decode_instruction(&self, instruction: &Instruction) -> Option<DecodedInstruction> {
        if instruction.program_id != self.program {
            return None;
        }
        Some(DecodedInstruction {
            program_id: instruction.program_id,
            data: InstructionType::Decoded(DecodedPayload {
                program: "Test".to_string(),
                operation: self.operation.to_string(),
                fields: vec![],
                account_roles: vec![],
            }),
            accounts: instruction.accounts.clone(),
        })
    }
}

#[test]
fn registry_returns_first_decoder_that_accepts() {
    let registry = Decoder::new(vec![
        Fixed { program: key(1), operation: "First" },
        Fixed { program: key(2), operation: "Second" },
        Fixed { program: key(2), operation: "Shadowed" },
    ]);
    let ix = |p: Pubkey| Instruction { program_id: p, accounts: vec![], data: vec![] };
    let op = |d: Option<DecodedInstruction>| match d.map(|d| d.data) {
        Some(InstructionType::Decoded(p)) => Some(p.operation),
        _ => None,
    };
    assert_eq!(op(registry.decode_instruction(&ix(key(1)))), Some("First".to_string()));
    assert_eq!(op(registry.decode_instruction(&ix(key(2)))), Some("Second".to_string()));
    assert_eq!(op(registry.decode_instruction(&ix(key(3)))), None);
}

#[test]
fn test_instruction_decoder_trait() {
    let decoder = Fixed { program: key(0), operation: "Kamino Lend Deposit" };
    let accounts: Vec<AccountMeta> = (0..8u8)
        .map(|i| AccountMeta { pubkey: key(10 + i), is_signer: i == 0, is_writable: i != 7 })
        .collect();
    let instruction = Instruction { program_id: key(0), accounts, data: vec![1, 0, 0, 0, 0, 0, 0, 0] };
    let decoded = decoder.decode_instruction(&instruction).unwrap();
    match decoded.data {
        InstructionType::Decoded(p) => assert_eq!(p.operation, "Kamino Lend Deposit"),
        InstructionType::Unknown => panic!("expected a decoded payload"),
    }
    assert_eq!(decoded.accounts.len(), 8);
}

#[test]
fn discriminator_takes_the_inner_variant_name() {
    assert_eq!(SolanaFilterHelpers::discriminator("JupiterDCA(OpenDca(OpenDca { in_amount: 5 }))"), "OpenDca");
    assert_eq!(SolanaFilterHelpers::discriminator("Unknown"), "");
    assert_eq!(SolanaFilterHelpers::discriminator("A(B)"), "B)");
}

#[test]
fn filter_extracts_fields_of_decoded_instruction() {
    let filter = solana_monitor::filter::SolanaBlockFilter::new(Decoder::new(vec![Fixed { program: key(1), operation: "Op" }]));
    let d = open_dca(key(1), vec![DecodedField { name: "n".to_string(), value: FieldValue::U16(300) }], vec![]);
    let params = filter.extract_fields(&d);
    assert_eq!(params[1].name, "n");
    assert_eq!(params[1].value, "300");
    assert_eq!(params[1].kind, "u16");
    assert_eq!(params.len(), 4);
}
