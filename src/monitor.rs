//! Monitors (user-authored watch rules) and the records a match produces.
use vstd::prelude::*;
use crate::decoder::InstructionType;
use crate::model::{AccountMeta, Pubkey, SolanaTransaction};

verus! {

/// A value that can be copied field by field, the copy equal to its source.
pub trait Duplicate: Sized {
    fn duplicate(&self) -> (r: Self)
        ensures
            r == *self,
    ;
}

impl Duplicate for String {
    fn duplicate(&self) -> (r: String) {
        self.clone()
    }
}

/// A copy of every element of `v`.
pub fn copy_all<T: Duplicate>(v: &Vec<T>) -> (r: Vec<T>)
    ensures
        r@ == v@,
{
    let mut r: Vec<T> = Vec::new();
    let mut i: usize = 0;
    while i < v.len()
        invariant
            i <= v.len(),
            r@ == v@.take(i as int),
        decreases v.len() - i,
    {
        r.push(v[i].duplicate());
        i = i + 1;
        assert(r@ =~= v@.take(i as int));
    }
    assert(v@.take(i as int) =~= v@);
    r
}

/// A copy of an optional value.
pub fn copy_option<T: Duplicate>(v: &Option<T>) -> (r: Option<T>)
    ensures
        r == *v,
{
    match v {
        Some(x) => Some(x.duplicate()),
        None => None,
    }
}

/// Which transaction outcomes a transaction condition accepts.
#[derive(Debug, Clone, Copy, PartialEq, Eq)]
pub enum TransactionStatus {
    Any,
    Success,
    Failure,
}

/// A transaction-level condition.
#[derive(Debug, Clone, PartialEq)]
pub struct TransactionCondition {
    pub status: TransactionStatus,
    pub expression: Option<String>,
}

/// An instruction-level condition: the operation it names, and an
/// expression over the decoded fields.
#[derive(Debug, Clone, PartialEq)]
pub struct FunctionCondition {
    pub signature: String,
    pub expression: Option<String>,
}

/// The record of an instruction-level condition that matched.
pub type InstructionCondition = FunctionCondition;

/// An event-level condition.
#[derive(Debug, Clone, PartialEq)]
pub struct EventCondition {
    pub signature: String,
    pub expression: Option<String>,
}

/// The conditions of a monitor, by category.
#[derive(Debug, Clone, PartialEq)]
pub struct MatchConditions {
    pub functions: Vec<FunctionCondition>,
    pub events: Vec<EventCondition>,
    pub transactions: Vec<TransactionCondition>,
}

/// A script run on a match to decide whether to notify.
#[derive(Debug, Clone, PartialEq)]
pub struct TriggerConditions {
    pub script_path: String,
    pub language: String,
    pub arguments: Option<Vec<String>>,
    pub timeout_ms: u32,
}

/// The decoder description of a watched program.
#[derive(Debug, Clone, PartialEq)]
pub struct ContractSpec(pub InstructionType);

/// Which decoders apply to an address.
#[derive(Debug, Clone, PartialEq)]
pub struct DecoderType {
    pub account: Option<String>,
    pub instruction: Option<InstructionType>,
}

impl Default for DecoderType {
    fn default() -> (r: DecoderType)
        ensures
            r.account is None && r.instruction is None,
    {
        DecoderType { account: None, instruction: None }
    }
}

/// A watched address, with the decoder description of its program if any.
#[derive(Debug, Clone, PartialEq)]
pub struct AddressWithSpec {
    pub address: String,
    pub contract_spec: Option<ContractSpec>,
}

/// A user-defined watch rule.
#[derive(Debug, Clone, PartialEq)]
pub struct Monitor {
    pub name: String,
    pub networks: Vec<String>,
    pub paused: bool,
    pub addresses: Vec<AddressWithSpec>,
    pub match_conditions: MatchConditions,
    pub trigger_conditions: Vec<TriggerConditions>,
    pub triggers: Vec<String>,
}

impl Duplicate for TransactionCondition {
    fn duplicate(&self) -> (r: TransactionCondition) {
        TransactionCondition { status: self.status, expression: copy_option(&self.expression) }
    }
}

impl Duplicate for FunctionCondition {
    fn duplicate(&self) -> (r: FunctionCondition) {
        FunctionCondition {
            signature: self.signature.clone(),
            expression: copy_option(&self.expression),
        }
    }
}

impl Duplicate for EventCondition {
    fn duplicate(&self) -> (r: EventCondition) {
        EventCondition {
            signature: self.signature.clone(),
            expression: copy_option(&self.expression),
        }
    }
}

/// A trigger condition seen as plain values.
pub open spec fn trigger_view(t: TriggerConditions) -> (String, String, Option<Seq<String>>, u32) {
    (
        t.script_path,
        t.language,
        match t.arguments {
            Some(a) => Some(a@),
            None => None,
        },
        t.timeout_ms,
    )
}

impl TriggerConditions {
    /// A copy of this trigger condition.
    pub fn duplicate(&self) -> (r: TriggerConditions)
        ensures
            trigger_view(r) == trigger_view(*self),
    {
        TriggerConditions {
            script_path: self.script_path.clone(),
            language: self.language.clone(),
            arguments: match &self.arguments {
                Some(a) => Some(copy_all(a)),
                None => None,
            },
            timeout_ms: self.timeout_ms,
        }
    }
}

/// The monitor's watched addresses with their decoder descriptions removed.
pub open spec fn redacted_addresses(a: Seq<AddressWithSpec>) -> Seq<AddressWithSpec> {
    a.map_values(|x: AddressWithSpec| AddressWithSpec { address: x.address, contract_spec: None })
}

impl Monitor {
    /// A copy of this monitor without the decoder descriptions of its
    /// addresses.
    pub fn redact(&self) -> (r: Monitor)
        ensures
            r.name == self.name,
            r.networks@ == self.networks@,
            r.paused == self.paused,
            r.addresses@ == redacted_addresses(self.addresses@),
            r.match_conditions.functions@ == self.match_conditions.functions@,
            r.match_conditions.events@ == self.match_conditions.events@,
            r.match_conditions.transactions@ == self.match_conditions.transactions@,
            r.trigger_conditions@.map_values(|t: TriggerConditions| trigger_view(t))
                == self.trigger_conditions@.map_values(|t: TriggerConditions| trigger_view(t)),
            r.triggers@ == self.triggers@,
    {
        let mut addresses: Vec<AddressWithSpec> = Vec::new();
        let mut i: usize = 0;
        while i < self.addresses.len()
            invariant
                i <= self.addresses.len(),
                addresses@ == redacted_addresses(self.addresses@.take(i as int)),
            decreases self.addresses.len() - i,
        {
            addresses.push(AddressWithSpec { address: self.addresses[i].address.clone(), contract_spec: None });
            i = i + 1;
            assert(addresses@ =~= redacted_addresses(self.addresses@.take(i as int)));
        }
        assert(self.addresses@.take(i as int) =~= self.addresses@);
        let mut triggers: Vec<TriggerConditions> = Vec::new();
        let mut j: usize = 0;
        while j < self.trigger_conditions.len()
            invariant
                j <= self.trigger_conditions.len(),
                triggers@.map_values(|t: TriggerConditions| trigger_view(t)) == self.trigger_conditions@.take(j as int).map_values(|t: TriggerConditions| trigger_view(t)),
            decreases self.trigger_conditions.len() - j,
        {
            let c = self.trigger_conditions[j].duplicate();
            proof {
                assert(triggers@.push(c).map_values(|t: TriggerConditions| trigger_view(t)) =~= triggers@.map_values(|t: TriggerConditions| trigger_view(t)).push(trigger_view(c)));
                assert(self.trigger_conditions@.take(j + 1).map_values(|t: TriggerConditions| trigger_view(t)) =~= self.trigger_conditions@.take(j as int).map_values(|t: TriggerConditions| trigger_view(t)).push(trigger_view(self.trigger_conditions@[j as int])));
            }
            triggers.push(c);
            j = j + 1;
        }
        assert(self.trigger_conditions@.take(j as int) =~= self.trigger_conditions@);
        Monitor {
            name: self.name.clone(),
            networks: copy_all(&self.networks),
            paused: self.paused,
            addresses,
            match_conditions: MatchConditions {
                functions: copy_all(&self.match_conditions.functions),
                events: copy_all(&self.match_conditions.events),
                transactions: copy_all(&self.match_conditions.transactions),
            },
            trigger_conditions: triggers,
            triggers: copy_all(&self.triggers),
        }
    }
}

/// One named, typed parameter that an expression can test.
#[derive(Debug, Clone, PartialEq)]
pub struct SolanaMatchParamEntry {
    /// Name of the parameter
    pub name: String,
    /// Value of the parameter, rendered as text
    pub value: String,
    /// Type of the parameter (`u64`, `i64`, `string`, `pubkey`, ...)
    pub kind: String,
    /// Whether the parameter is indexed
    pub indexed: bool,
}

impl Duplicate for SolanaMatchParamEntry {
    fn duplicate(&self) -> (r: SolanaMatchParamEntry) {
        SolanaMatchParamEntry {
            name: self.name.clone(),
            value: self.value.clone(),
            kind: self.kind.clone(),
            indexed: self.indexed,
        }
    }
}

/// The parameters of a matched instruction condition.
#[derive(Debug, Clone, PartialEq)]
pub struct SolanaMatchParamsMap {
    /// The operation the condition names
    pub signature: String,
    /// The parameters of the instruction that satisfied it, where the
    /// condition has an expression
    pub args: Option<Vec<SolanaMatchParamEntry>>,
    /// Hex form of the signature, if any
    pub hex_signature: Option<String>,
}

/// The arguments of a match.
#[derive(Debug, Clone, PartialEq)]
pub struct SolanaMatchArguments {
    /// Matched instruction conditions, with their parameters
    pub instructions: Option<Vec<SolanaMatchParamsMap>>,
    /// Matched accounts
    pub accounts: Option<Vec<AccountMeta>>,
}

/// The conditions of a monitor that a transaction satisfied.
#[derive(Debug, Clone, PartialEq)]
pub struct SolanaMatchConditions {
    pub instructions: Vec<InstructionCondition>,
    pub accounts: Vec<String>,
    pub transactions: Vec<TransactionCondition>,
}

/// A transaction that satisfied a monitor.
#[derive(Debug, Clone)]
pub struct SolanaMonitorMatch {
    /// The monitor, without decoder descriptions
    pub monitor: Monitor,
    /// The network the transaction was seen on
    pub network_slug: String,
    /// The conditions that matched
    pub matched_on: SolanaMatchConditions,
    /// The parameters behind the matched conditions
    pub matched_on_args: Option<SolanaMatchArguments>,
    /// The transaction
    pub transaction: SolanaTransaction,
}

impl SolanaMonitorMatch {
    /// A match from its parts.
    pub fn new(
        monitor: Monitor,
        network_slug: String,
        matched_on: SolanaMatchConditions,
        matched_on_args: Option<SolanaMatchArguments>,
        transaction: SolanaTransaction,
    ) -> (r: SolanaMonitorMatch)
        ensures
            r.monitor == monitor,
            r.network_slug == network_slug,
            r.matched_on == matched_on,
            r.matched_on_args == matched_on_args,
            r.transaction == transaction,
    {
        SolanaMonitorMatch { monitor, network_slug, matched_on, matched_on_args, transaction }
    }

    /// The slot of the matched transaction.
    pub fn slot(&self) -> (r: u64)
        ensures
            r == self.transaction.slot,
    {
        self.transaction.slot()
    }

    /// The signature of the matched transaction.
    pub fn signature(&self) -> (r: &crate::model::Signature)
        ensures
            *r == self.transaction.signature,
    {
        self.transaction.signature()
    }

    /// The first account of the transaction's message, if any.
    pub fn program_id(&self) -> (r: Option<Pubkey>)
        ensures
            r == (if self.transaction.transaction.message.spec_body().account_keys@.len() > 0 {
                Some(self.transaction.transaction.message.spec_body().account_keys@[0])
            } else {
                None::<Pubkey>
            }),
    {
        let keys = &self.transaction.message().body().account_keys;
        if keys.len() > 0 {
            Some(keys[0])
        } else {
            None
        }
    }

    /// The data of the transaction's first instruction, if any.
    pub fn data(&self) -> (r: Option<&Vec<u8>>)
        ensures
            self.transaction.transaction.message.spec_body().instructions@.len() > 0 ==> r == Some(
                &self.transaction.transaction.message.spec_body().instructions@[0].data,
            ),
            self.transaction.transaction.message.spec_body().instructions@.len() == 0 ==> r is None,
    {
        let ixs = &self.transaction.message().body().instructions;
        if ixs.len() > 0 {
            Some(&ixs[0].data)
        } else {
            None
        }
    }

    /// The index of the matched instruction; a match stores only that one.
    pub fn instruction_index(&self) -> (r: usize)
        ensures
            r == 0,
    {
        0
    }

    /// The stack height of the matched instruction; a match stores only that
    /// one.
    pub fn stack_height(&self) -> (r: usize)
        ensures
            r == 0,
    {
        0
    }

    /// The network the transaction was seen on.
    pub fn network_slug(&self) -> (r: &str)
        ensures
            r@ == self.network_slug@,
    {
        self.network_slug.as_str()
    }

    /// The conditions that matched.
    pub fn matched_on(&self) -> (r: &SolanaMatchConditions)
        ensures
            *r == self.matched_on,
    {
        &self.matched_on
    }

    /// The parameters behind the matched conditions.
    pub fn matched_on_args(&self) -> (r: Option<&SolanaMatchArguments>)
        ensures
            r == match &self.matched_on_args {
                Some(a) => Some(a),
                None => None::<&SolanaMatchArguments>,
            },
    {
        match &self.matched_on_args {
            Some(a) => Some(a),
            None => None,
        }
    }

    /// The matched transaction.
    pub fn transaction(&self) -> (r: &SolanaTransaction)
        ensures
            *r == self.transaction,
    {
        &self.transaction
    }
}

} // verus!
