//! Decoded instruction payloads, the registry that tries program decoders in
//! turn, and the extraction of named parameters from a decoded instruction.
use vstd::prelude::*;
use crate::expression::{params_view, ParamView};
use crate::model::{AccountMeta, Instruction, Pubkey, Signature};
use crate::monitor::SolanaMatchParamEntry;
use crate::number::{decimal, render_i64, render_u128, render_u64, signed_decimal};
use crate::text::push_char;

verus! {

/// The base58 text of a 32-byte key.
pub uninterp spec fn base58_key(bytes: Seq<u8>) -> Seq<char>;

/// The base58 text of a 64-byte signature.
pub uninterp spec fn base58_signature(bytes: Seq<u8>) -> Seq<char>;

/// Relies on `solana_pubkey::Pubkey`'s `Display`: the base58 text of the
/// key's bytes.
#[verifier::external_body]
pub(crate) fn pubkey_text(k: &Pubkey) -> (r: String)
    ensures
        r@ == base58_key(k.0@),
{
    solana_pubkey::Pubkey::new_from_array(k.0).to_string()
}

/// Relies on `solana_signature::Signature`'s `Display`: the base58 text of
/// the signature's bytes.
#[verifier::external_body]
pub(crate) fn signature_text(s: &Signature) -> (r: String)
    ensures
        r@ == base58_signature(s.0@),
{
    solana_signature::Signature::from(s.0).to_string()
}

/// The lowercase hexadecimal digit for `d < 16`.
pub open spec fn hex_digit(d: nat) -> char {
    if d < 10 {
        ((48 + d) as u8) as char
    } else {
        ((87 + d) as u8) as char
    }
}

/// Two lowercase hexadecimal digits per byte.
pub open spec fn hex(b: Seq<u8>) -> Seq<char>
    decreases b.len(),
{
    if b.len() == 0 {
        Seq::empty()
    } else {
        hex(b.drop_last()) + seq![hex_digit((b.last() / 16) as nat), hex_digit((b.last() % 16) as nat)]
    }
}

fn hex_char(d: u8) -> (c: char)
    requires
        d < 16,
    ensures
        c == hex_digit(d as nat),
{
    if d < 10 {
        (48u8 + d) as char
    } else {
        (87u8 + d) as char
    }
}

/// Renders bytes as lowercase hexadecimal.
pub fn hex_string(b: &Vec<u8>) -> (r: String)
    ensures
        r@ == hex(b@),
{
    let mut s = String::new();
    let mut i: usize = 0;
    while i < b.len()
        invariant
            i <= b.len(),
            s@ == hex(b@.take(i as int)),
        decreases b.len() - i,
    {
        let x = b[i];
        proof {
            assert(b@.take(i + 1).drop_last() =~= b@.take(i as int));
        }
        push_char(&mut s, hex_char(x / 16));
        push_char(&mut s, hex_char(x % 16));
        i = i + 1;
        assert(s@ =~= hex(b@.take(i as int)));
    }
    assert(b@.take(i as int) =~= b@);
    s
}

/// A typed value of a decoded instruction field.
#[derive(Debug, Clone, PartialEq)]
pub enum FieldValue {
    U8(u8),
    U16(u16),
    U32(u32),
    U64(u64),
    U128(u128),
    I64(i64),
    Bool(bool),
    Text(String),
    Key(Pubkey),
    Bytes(Vec<u8>),
    /// An account address given as its base58 text.
    Address(String),
}

/// A named field of a decoded instruction.
#[derive(Debug, Clone, PartialEq)]
pub struct DecodedField {
    pub name: String,
    pub value: FieldValue,
}

/// What a program decoder recognised: the program family, the operation
/// (such as `OpenDca`), its fields, and the roles of its accounts in order.
#[derive(Debug, Clone, PartialEq)]
pub struct DecodedPayload {
    pub program: String,
    pub operation: String,
    pub fields: Vec<DecodedField>,
    pub account_roles: Vec<String>,
}

/// A decoded payload, or `Unknown` where no decoder recognised the program.
#[derive(Debug, Clone, PartialEq)]
pub enum InstructionType {
    Unknown,
    Decoded(DecodedPayload),
}

/// An instruction with its decoded payload.
#[derive(Debug, Clone, PartialEq)]
pub struct DecodedInstruction {
    /// The program that owns the instruction
    pub program_id: Pubkey,
    /// The decoded payload
    pub data: InstructionType,
    /// The accounts of the instruction
    pub accounts: Vec<AccountMeta>,
}

/// Why a decoder could not decode an instruction.
#[derive(Debug, Clone, PartialEq)]
pub enum DecoderError {
    InvalidData(String),
}

/// The operation a decoded instruction names, if recognised.
pub open spec fn operation_of(d: DecodedInstruction) -> Option<Seq<char>> {
    match d.data {
        InstructionType::Decoded(p) => Some(p.operation@),
        InstructionType::Unknown => None,
    }
}

/// A decoding result seen as what matching reads of it: the program, the
/// accounts, the operation and the parameters.
pub open spec fn decoding_view(r: Option<DecodedInstruction>) -> Option<
    (Pubkey, Seq<AccountMeta>, Option<Seq<char>>, Seq<ParamView>),
> {
    match r {
        Some(d) => Some((d.program_id, d.accounts@, operation_of(d), instruction_params(d))),
        None => None,
    }
}

/// A decoder for the instructions of one or more programs. It declines an
/// instruction it does not recognise by returning `None`; what it accepts
/// keeps the instruction's program. Decoding is a function of the
/// instruction alone.
pub trait InstructionDecoder {
    /// What the decoder gives for `instruction`.
    spec fn decoded(&self, instruction: Instruction) -> Option<DecodedInstruction>;

    /// Decodes `instruction`, or declines it.
    fn decode_instruction(&self, instruction: &Instruction) -> (r: Option<DecodedInstruction>)
        ensures
            decoding_view(r) == decoding_view(self.decoded(*instruction)),
            r matches Some(d) ==> d.program_id == instruction.program_id,
    ;
}

/// What the first decoder from position `i` on that accepts `instruction`
/// gives, trying them in order; `None` when all decline.
pub open spec fn first_decoded<D: InstructionDecoder>(decoders: Seq<D>, instruction: Instruction, i: int) -> Option<DecodedInstruction>
    decreases decoders.len() - i,
{
    if i < 0 || i >= decoders.len() {
        None
    } else {
        match decoders[i].decoded(instruction) {
            Some(d) => Some(d),
            None => first_decoded(decoders, instruction, i + 1),
        }
    }
}

/// An ordered registry of program decoders.
pub struct Decoder<D> {
    pub decoders: Vec<D>,
}

impl<D: InstructionDecoder> Decoder<D> {
    /// A registry that tries `decoders` in the given order.
    pub fn new(decoders: Vec<D>) -> (r: Decoder<D>)
        ensures
            r.decoders@ == decoders@,
    {
        Decoder { decoders }
    }

    /// Decodes `instruction` with the first decoder that accepts it, in
    /// registration order; `None` when every decoder declines.
    pub fn decode_instruction(&self, instruction: &Instruction) -> (r: Option<DecodedInstruction>)
        ensures
            decoding_view(r) == decoding_view(first_decoded(self.decoders@, *instruction, 0)),
            r matches Some(d) ==> d.program_id == instruction.program_id,
    {
        let mut i: usize = 0;
        while i < self.decoders.len()
            invariant
                i <= self.decoders.len(),
                first_decoded(self.decoders@, *instruction, 0) == first_decoded(self.decoders@, *instruction, i as int),
            decreases self.decoders.len() - i,
        {
            let d = self.decoders[i].decode_instruction(instruction);
            if d.is_some() {
                return d;
            }
            i = i + 1;
        }
        None
    }
}

/// The rendered value and kind of a field value.
pub open spec fn field_text(v: FieldValue) -> (Seq<char>, Seq<char>) {
    match v {
        FieldValue::U8(x) => (decimal(x as nat), "u8"@),
        FieldValue::U16(x) => (decimal(x as nat), "u16"@),
        FieldValue::U32(x) => (decimal(x as nat), "u32"@),
        FieldValue::U64(x) => (decimal(x as nat), "u64"@),
        FieldValue::U128(x) => (decimal(x as nat), "u128"@),
        FieldValue::I64(x) => (signed_decimal(x as int), "i64"@),
        FieldValue::Bool(b) => (
            if b {
                "true"@
            } else {
                "false"@
            },
            "bool"@,
        ),
        FieldValue::Text(s) => (s@, "string"@),
        FieldValue::Key(k) => (base58_key(k.0@), "pubkey"@),
        FieldValue::Bytes(b) => (hex(b@), "bytes"@),
        FieldValue::Address(a) => (a@, "pubkey"@),
    }
}

/// The parameter for a decoded field.
pub open spec fn field_param(f: DecodedField) -> ParamView {
    (f.name@, field_text(f.value).0, field_text(f.value).1)
}

/// The parameters of a payload: `program_id` first, then one per field.
pub open spec fn payload_params(program_id: Pubkey, t: InstructionType) -> Seq<ParamView> {
    seq![("program_id"@, base58_key(program_id.0@), "pubkey"@)] + match t {
        InstructionType::Unknown => Seq::empty(),
        InstructionType::Decoded(p) => p.fields@.map_values(|f: DecodedField| field_param(f)),
    }
}

/// The name of the account at position `k`: its role where the decoder
/// gave one, else `account_k`.
pub open spec fn account_name(roles: Seq<String>, k: int) -> Seq<char> {
    if 0 <= k < roles.len() {
        roles[k]@
    } else {
        "account_"@ + decimal(k as nat)
    }
}

/// The account roles that a decoded payload names.
pub open spec fn roles_of(t: InstructionType) -> Seq<String> {
    match t {
        InstructionType::Unknown => Seq::empty(),
        InstructionType::Decoded(p) => p.account_roles@,
    }
}

/// The parameters of a decoded instruction: those of its payload, then one
/// `pubkey` entry per account.
pub open spec fn instruction_params(d: DecodedInstruction) -> Seq<ParamView> {
    payload_params(d.program_id, d.data) + d.accounts@.map(
        |k: int, a: AccountMeta| (account_name(roles_of(d.data), k), base58_key(a.pubkey.0@), "pubkey"@),
    )
}

pub(crate) fn literal(s: &str) -> (r: String)
    ensures
        r@ == s@,
{
    s.to_owned()
}

/// The rendered value and kind of a field value.
fn render_field(v: &FieldValue) -> (r: (String, String))
    ensures
        (r.0@, r.1@) == field_text(*v),
{
    match v {
        FieldValue::U8(x) => (render_u64(*x as u64), literal("u8")),
        FieldValue::U16(x) => (render_u64(*x as u64), literal("u16")),
        FieldValue::U32(x) => (render_u64(*x as u64), literal("u32")),
        FieldValue::U64(x) => (render_u64(*x), literal("u64")),
        FieldValue::U128(x) => (render_u128(*x), literal("u128")),
        FieldValue::I64(x) => (render_i64(*x), literal("i64")),
        FieldValue::Bool(b) => (
            if *b {
                literal("true")
            } else {
                literal("false")
            },
            literal("bool"),
        ),
        FieldValue::Text(s) => (s.clone(), literal("string")),
        FieldValue::Key(k) => (pubkey_text(k), literal("pubkey")),
        FieldValue::Bytes(b) => (hex_string(b), literal("bytes")),
        FieldValue::Address(a) => (a.clone(), literal("pubkey")),
    }
}

proof fn lemma_push_view(s: Seq<SolanaMatchParamEntry>, e: SolanaMatchParamEntry)
    ensures
        params_view(s.push(e)) == params_view(s).push((e.name@, e.value@, e.kind@)),
{
    assert(params_view(s.push(e)) =~= params_view(s).push((e.name@, e.value@, e.kind@)));
}

/// The parameters of a payload: a `program_id` entry of kind `pubkey`, then
/// one entry per decoded field, its kind fixed by the field's type.
pub fn create_match_params(program_id: &Pubkey, instruction: &InstructionType) -> (r: Vec<
    SolanaMatchParamEntry,
>)
    ensures
        params_view(r@) == payload_params(*program_id, *instruction),
        forall|k: int| 0 <= k < r@.len() ==> !(#[trigger] r@[k]).indexed,
{
    let mut params: Vec<SolanaMatchParamEntry> = Vec::new();
    let first = SolanaMatchParamEntry {
        name: literal("program_id"),
        value: pubkey_text(program_id),
        kind: literal("pubkey"),
        indexed: false,
    };
    proof {
        lemma_push_view(params@, first);
    }
    params.push(first);
    match instruction {
        InstructionType::Unknown => {
            assert(params_view(params@) =~= payload_params(*program_id, *instruction));
        },
        InstructionType::Decoded(p) => {
            let ghost head = params_view(params@);
            let mut i: usize = 0;
            while i < p.fields.len()
                invariant
                    i <= p.fields.len(),
                    head == seq![("program_id"@, base58_key(program_id.0@), "pubkey"@)],
                    params_view(params@) == head + p.fields@.take(i as int).map_values(
                        |f: DecodedField| field_param(f),
                    ),
                    forall|k: int| 0 <= k < params@.len() ==> !(#[trigger] params@[k]).indexed,
                decreases p.fields.len() - i,
            {
                let f = &p.fields[i];
                let (value, kind) = render_field(&f.value);
                let e = SolanaMatchParamEntry { name: f.name.clone(), value, kind, indexed: false };
                proof {
                    lemma_push_view(params@, e);
                    assert(p.fields@.take(i + 1).map_values(|f: DecodedField| field_param(f))
                        =~= p.fields@.take(i as int).map_values(|f: DecodedField| field_param(f)).push(
                        field_param(*f),
                    ));
                }
                params.push(e);
                i = i + 1;
            }
            assert(p.fields@.take(i as int) =~= p.fields@);
        },
    }
    params
}

/// The name of the account at position `k`.
fn account_entry_name(roles: &Vec<String>, k: usize) -> (r: String)
    ensures
        r@ == account_name(roles@, k as int),
{
    if k < roles.len() {
        roles[k].clone()
    } else {
        let mut s = literal("account_");
        let digits = render_u64(k as u64);
        let ghost base = s@;
        let chars = crate::text::chars_of(digits.as_str());
        let mut i: usize = 0;
        while i < chars.len()
            invariant
                i <= chars.len(),
                base == "account_"@,
                chars@ == decimal(k as nat),
                s@ == base + chars@.take(i as int),
            decreases chars.len() - i,
        {
            push_char(&mut s, chars[i]);
            i = i + 1;
            assert(s@ =~= base + chars@.take(i as int));
        }
        assert(chars@.take(i as int) =~= chars@);
        s
    }
}

/// The parameters of a decoded instruction: those of its payload, then one
/// `pubkey` entry per account, named for its role where the decoder gave
/// roles and `account_0`, `account_1`, ... otherwise.
pub fn extract_params(decoded: &DecodedInstruction) -> (r: Vec<SolanaMatchParamEntry>)
    ensures
        params_view(r@) == instruction_params(*decoded),
        forall|k: int| 0 <= k < r@.len() ==> !(#[trigger] r@[k]).indexed,
{
    let mut params = create_match_params(&decoded.program_id, &decoded.data);
    let empty: Vec<String> = Vec::new();
    let roles: &Vec<String> = match &decoded.data {
        InstructionType::Unknown => &empty,
        InstructionType::Decoded(p) => &p.account_roles,
    };
    assert(roles@ == roles_of(decoded.data));
    let ghost head = params_view(params@);
    let ghost f = |k: int, a: AccountMeta| (account_name(roles_of(decoded.data), k), base58_key(a.pubkey.0@), "pubkey"@);
    let mut k: usize = 0;
    while k < decoded.accounts.len()
        invariant
            k <= decoded.accounts.len(),
            roles@ == roles_of(decoded.data),
            head == payload_params(decoded.program_id, decoded.data),
            f == (|k: int, a: AccountMeta| (account_name(roles_of(decoded.data), k), base58_key(a.pubkey.0@), "pubkey"@)),
            params_view(params@) == head + decoded.accounts@.take(k as int).map(f),
            forall|t: int| 0 <= t < params@.len() ==> !(#[trigger] params@[t]).indexed,
        decreases decoded.accounts.len() - k,
    {
        let a = decoded.accounts[k];
        let e = SolanaMatchParamEntry {
            name: account_entry_name(roles, k),
            value: pubkey_text(&a.pubkey),
            kind: literal("pubkey"),
            indexed: false,
        };
        proof {
            lemma_push_view(params@, e);
            assert(decoded.accounts@.take(k + 1).map(f) =~= decoded.accounts@.take(k as int).map(f).push(
                f(k as int, a),
            ));
        }
        params.push(e);
        k = k + 1;
    }
    assert(decoded.accounts@.take(k as int) =~= decoded.accounts@);
    params
}

} // verus!
