//! The decoder for the Jupiter DCA program, over carbon's decoder for it.
//!
//! Carbon decodes the instruction into its typed form; the library reads the
//! operation and the fields from the debug rendering of that form (as in
//! `OpenDca(OpenDca { in_amount: 5000000, start_at: Some(0), .. })`), so that
//! which fields become parameters, and of which kind, is verified here.
//!
//! The Kamino lending and Kamino farms decoders are not part of the library:
//! their crates are not among those it is built with.
use vstd::prelude::*;
use crate::decoder::{
    base58_key, decoding_view, field_param, literal, DecodedField,
    DecodedInstruction, DecodedPayload, FieldValue, InstructionDecoder, InstructionType,
    account_name, Decoder,
};
use crate::expression::ParamView;
use crate::model::{copy_vec, AccountMeta, Instruction, Pubkey};
use crate::number::{decimal, parse_i64, parse_i64_spec, parse_u64, parse_u64_spec, signed_decimal};
use crate::text::{
    chars_of, ends_with_chars, find_chars, find_from, same_chars, slice_chars, split_by,
    split_chars, starts_with_chars, string_of,
};

verus! {

/// The debug rendering of what carbon's Jupiter DCA decoder gives for an
/// instruction, or `None` where it declines.
pub uninterp spec fn jupiter_dca_text(ix: (Pubkey, Seq<AccountMeta>, Seq<u8>)) -> Option<Seq<char>>;

/// Relies on `carbon_jupiter_dca_decoder::JupiterDcaDecoder`'s
/// `decode_instruction` (it declines other programs and unknown
/// discriminators) and on the `Debug` rendering of the decoded
/// `JupiterDcaInstruction`.
#[verifier::external_body]
fn jupiter_dca_debug(ix: &Instruction) -> (r: Option<String>)
    ensures
        r matches Some(s) ==> jupiter_dca_text(ix@) == Some(s@),
        r is None ==> jupiter_dca_text(ix@) is None,
{
    let accounts = ix.accounts.iter().map(|a| solana_instruction::AccountMeta {
        pubkey: a.pubkey.0.into(),
        is_signer: a.is_signer,
        is_writable: a.is_writable,
    }).collect();
    let carbon = solana_instruction::Instruction { program_id: ix.program_id.0.into(), accounts, data: ix.data.clone() };
    let decoder = carbon_jupiter_dca_decoder::JupiterDcaDecoder;
    let decoded = carbon_core::instruction::InstructionDecoder::decode_instruction(&decoder, &carbon)?;
    Some(format!("{:?}", decoded.data))
}

/// The `name: value` items of a rendering `Op(Op { a: 1, b: 2 })`; none for
/// a rendering without fields.
pub open spec fn debug_items(t: Seq<char>) -> Seq<Seq<char>> {
    match find_from(t, " { "@, 0) {
        Some(a) => if " })"@.is_suffix_of(t) && a + 3 <= t.len() - 3 {
            split_by(t.subrange(a + 3, t.len() - 3), ", "@)
        } else {
            Seq::empty()
        },
        None => Seq::empty(),
    }
}

/// The value inside `Some(..)`, or the value itself.
pub open spec fn unwrap_some(raw: Seq<char>) -> Seq<char> {
    if raw.len() >= 6 && "Some("@.is_prefix_of(raw) && ")"@.is_suffix_of(raw) {
        raw.subrange(5, raw.len() - 1)
    } else {
        raw
    }
}

/// The rendered value and kind of a field value: a boolean, an unsigned or
/// signed integer, or else an address in base58.
pub open spec fn debug_value(v: Seq<char>) -> (Seq<char>, Seq<char>) {
    if v == "true"@ || v == "false"@ {
        (v, "bool"@)
    } else {
        match parse_u64_spec(v) {
            Some(x) => (decimal(x as nat), "u64"@),
            None => match parse_i64_spec(v) {
                Some(x) => (signed_decimal(x as int), "i64"@),
                None => (v, "pubkey"@),
            },
        }
    }
}

/// The parameter of one item, if it is `name: value` with a value present.
pub open spec fn item_params(item: Seq<char>) -> Seq<ParamView> {
    let parts = split_by(item, ": "@);
    if parts.len() == 2 && parts[1] != "None"@ {
        seq![(parts[0], debug_value(unwrap_some(parts[1])).0, debug_value(unwrap_some(parts[1])).1)]
    } else {
        Seq::empty()
    }
}

/// The parameters of the items, in order.
pub open spec fn debug_params(items: Seq<Seq<char>>) -> Seq<ParamView>
    decreases items.len(),
{
    if items.len() == 0 {
        Seq::empty()
    } else {
        debug_params(items.drop_last()) + item_params(items.last())
    }
}

/// The operation a rendering names: the text before its first `(`.
pub open spec fn debug_operation(t: Seq<char>) -> Seq<char> {
    split_by(t, "("@)[0]
}

/// What matching reads of the Jupiter DCA decoding of `ix`.
pub open spec fn dca_view(ix: Instruction) -> Option<(Pubkey, Seq<AccountMeta>, Option<Seq<char>>, Seq<ParamView>)> {
    match jupiter_dca_text(ix@) {
        Some(t) => Some(
            (
                ix.program_id,
                ix.accounts@,
                Some(debug_operation(t)),
                seq![("program_id"@, base58_key(ix.program_id.0@), "pubkey"@)] + debug_params(debug_items(t))
                    + ix.accounts@.map(
                    |k: int, a: AccountMeta| (account_name(Seq::empty(), k), base58_key(a.pubkey.0@), "pubkey"@),
                ),
            ),
        ),
        None => None,
    }
}

/// The decoder for the Jupiter DCA program.
pub struct JupiterDca;

fn is_literal(v: &Vec<char>, lit: &str) -> (r: bool)
    ensures
        r == (v@ == lit@),
{
    let l = chars_of(lit);
    same_chars(v, &l)
}

/// The value inside `Some(..)`, or the value itself.
fn unwrap_some_exec(raw: &Vec<char>) -> (r: Vec<char>)
    ensures
        r@ == unwrap_some(raw@),
{
    let pre = chars_of("Some(");
    let post = chars_of(")");
    proof {
        reveal_strlit("Some(");
        reveal_strlit(")");
    }
    if raw.len() >= 6 && starts_with_chars(raw, &pre) && ends_with_chars(raw, &post) {
        slice_chars(raw, 5, raw.len() - 1)
    } else {
        slice_chars(raw, 0, raw.len())
    }
}

/// The field value a rendered value stands for.
fn debug_field(v: &Vec<char>) -> (r: FieldValue)
    ensures
        crate::decoder::field_text(r) == debug_value(v@),
{
    if is_literal(v, "true") {
        FieldValue::Bool(true)
    } else if is_literal(v, "false") {
        FieldValue::Bool(false)
    } else {
        match parse_u64(v) {
            Some(x) => FieldValue::U64(x),
            None => match parse_i64(v) {
                Some(x) => FieldValue::I64(x),
                None => FieldValue::Address(string_of(v)),
            },
        }
    }
}

/// The fields of the items, in order.
fn debug_fields(items: &Vec<Vec<char>>) -> (r: Vec<DecodedField>)
    ensures
        r@.map_values(|f: DecodedField| field_param(f)) == debug_params(items@.map_values(|p: Vec<char>| p@)),
{
    let ghost iv = items@.map_values(|p: Vec<char>| p@);
    let sep = chars_of(": ");
    proof {
        reveal_strlit(": ");
    }
    let mut fields: Vec<DecodedField> = Vec::new();
    let mut i: usize = 0;
    while i < items.len()
        invariant
            i <= items.len(),
            sep@ == ": "@,
            sep.len() > 0,
            iv == items@.map_values(|p: Vec<char>| p@),
            fields@.map_values(|f: DecodedField| field_param(f)) == debug_params(iv.take(i as int)),
        decreases items.len() - i,
    {
        let ghost before = fields@;
        assert(iv.take(i + 1).drop_last() =~= iv.take(i as int));
        assert(iv.take(i + 1).last() == items@[i as int]@);
        let parts = split_chars(&items[i], &sep);
        let ghost pv = parts@.map_values(|p: Vec<char>| p@);
        if parts.len() == 2 && !is_literal(&parts[1], "None") {
            assert(pv[0] == parts@[0]@ && pv[1] == parts@[1]@);
            let v = unwrap_some_exec(&parts[1]);
            let f = DecodedField { name: string_of(&parts[0]), value: debug_field(&v) };
            fields.push(f);
            assert(fields@.map_values(|f: DecodedField| field_param(f)) =~= before.map_values(|f: DecodedField| field_param(f)).push(field_param(f)));
            assert(item_params(items@[i as int]@) =~= seq![field_param(f)]);
        } else {
            if parts.len() == 2 {
                assert(pv[1] == parts@[1]@);
            }
            assert(item_params(items@[i as int]@) =~= Seq::<ParamView>::empty());
        }
        assert(debug_params(iv.take(i + 1)) == debug_params(iv.take(i as int)) + item_params(items@[i as int]@));
        i = i + 1;
        assert(fields@.map_values(|f: DecodedField| field_param(f)) =~= debug_params(iv.take(i as int)));
    }
    assert(iv.take(i as int) =~= iv);
    fields
}

/// The `name: value` items of a rendering.
fn debug_items_exec(t: &Vec<char>) -> (r: Vec<Vec<char>>)
    ensures
        r@.map_values(|p: Vec<char>| p@) == debug_items(t@),
{
    let open = chars_of(" { ");
    let close = chars_of(" })");
    let sep = chars_of(", ");
    proof {
        reveal_strlit(" { ");
        reveal_strlit(" })");
        reveal_strlit(", ");
    }
    proof {
        crate::text::lemma_find_from_bounds(t@, open@, 0);
    }
    match find_chars(t, &open, 0) {
        Some(a) => {
            if ends_with_chars(t, &close) && t.len() >= 6 && a <= t.len() - 6 {
                let body = slice_chars(t, a + 3, t.len() - 3);
                split_chars(&body, &sep)
            } else {
                let r: Vec<Vec<char>> = Vec::new();
                assert(r@.map_values(|p: Vec<char>| p@) =~= Seq::<Seq<char>>::empty());
                r
            }
        },
        None => {
            let r: Vec<Vec<char>> = Vec::new();
            assert(r@.map_values(|p: Vec<char>| p@) =~= Seq::<Seq<char>>::empty());
            r
        },
    }
}

/// The operation a rendering names.
fn debug_operation_exec(t: &Vec<char>) -> (r: String)
    ensures
        r@ == debug_operation(t@),
{
    let paren = chars_of("(");
    proof {
        reveal_strlit("(");
    }
    let parts = split_chars(t, &paren);
    let ghost pv = parts@.map_values(|p: Vec<char>| p@);
    proof {
        crate::text::lemma_split_nonempty(t@, "("@);
    }
    assert(pv[0] == parts@[0]@);
    string_of(&parts[0])
}

impl Decoder<JupiterDca> {
    /// The registry of the programs the library decodes itself.
    pub fn with_known_programs() -> (r: Decoder<JupiterDca>)
        ensures
            r.decoders@.len() == 1,
    {
        let mut decoders: Vec<JupiterDca> = Vec::new();
        decoders.push(JupiterDca);
        Decoder::new(decoders)
    }
}

impl InstructionDecoder for JupiterDca {
    open spec fn decoded(&self, instruction: Instruction) -> Option<DecodedInstruction> {
        match dca_view(instruction) {
            Some(v) => Some(choose|d: DecodedInstruction| decoding_view(Some(d)) == Some(v)),
            None => None,
        }
    }

    fn decode_instruction(&self, instruction: &Instruction) -> (r: Option<DecodedInstruction>) {
        match jupiter_dca_debug(instruction) {
            Some(text) => {
                let t = chars_of(text.as_str());
                let items = debug_items_exec(&t);
                let fields = debug_fields(&items);
                let d = DecodedInstruction {
                    program_id: instruction.program_id,
                    data: InstructionType::Decoded(
                        DecodedPayload {
                            program: literal("JupiterDCA"),
                            operation: debug_operation_exec(&t),
                            fields,
                            account_roles: Vec::new(),
                        },
                    ),
                    accounts: copy_vec(&instruction.accounts),
                };
                proof {
                    let v = dca_view(*instruction)->0;
                    let pid = instruction.program_id;
                    assert(crate::decoder::payload_params(pid, d.data) =~= seq![("program_id"@, base58_key(pid.0@), "pubkey"@)]
                        + debug_params(debug_items(t@)));
                    assert(crate::decoder::roles_of(d.data) =~= Seq::<String>::empty());
                    assert(crate::decoder::instruction_params(d) =~= v.3);
                    assert(decoding_view(Some(d)) == Some(v));
                }
                Some(d)
            },
            None => None,
        }
    }
}

} // verus!
