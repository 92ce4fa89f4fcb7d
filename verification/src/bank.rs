//! Bank account domain.
//!
//! A small banking domain built on the aggregate machinery: an account
//! balance as state, deposit and withdrawal commands, and the corresponding
//! funds-deposited and funds-withdrawn events, with a JSON payload codec
//! proved lossless.

use vstd::prelude::*;
use vstd::string::StringExecFns;

use crate::Aggregate;
use crate::AggregateState;
use crate::Dispatcher;
use crate::Error;
use crate::Event;
use crate::Kind;
use crate::decimal::dec_of;
use crate::decimal::is_canonical_dec;
use crate::decimal::lemma_canonical_dec_of;
use crate::decimal::lemma_dec_of_canonical;
use crate::decimal::parse_decimal_u32;
use crate::decimal::u32_to_decimal;
use crate::decimal::value_of_digits;

verus! {

/// A request to change an account: may be rejected by the aggregate.
#[derive(Debug, Clone, Copy, PartialEq, Eq, Structural)]
pub enum BankCommand {
    DepositFunds { amount: u32 },
    WithdrawFunds { amount: u32 },
}

/// An immutable fact about an account: funds were deposited or withdrawn.
#[derive(Debug, Clone, Copy, PartialEq, Eq, Structural)]
pub enum BankEvent {
    FundsDeposited { amount: u32 },
    FundsWithdrawn { amount: u32 },
}

/// The state of one account: its balance, and the generation counter.
#[derive(Debug, Clone, Copy, PartialEq, Eq, Structural)]
pub struct AccountData {
    pub balance: u32,
    pub generation: u64,
}

/// The JSON payload text of a funds-deposited event.
pub open spec fn deposited_json(amount: u32) -> Seq<char> {
    "{\"type\":\"bankevent.fundsdeposited\",\"amount\":"@ + dec_of(amount as nat) + "}"@
}

/// The JSON payload text of a funds-withdrawn event.
pub open spec fn withdrawn_json(amount: u32) -> Seq<char> {
    "{\"type\":\"bankevent.fundswithdrawn\",\"amount\":"@ + dec_of(amount as nat) + "}"@
}

/// The shape of a deposited payload: it starts with the fixed field text,
/// ends with a closing brace, and carries the amount's decimal text in
/// between.
proof fn lemma_deposited_json_shape(n: u32)
    ensures
        deposited_json(n).len() >= "{\"type\":\"bankevent.fundsdeposited\",\"amount\":"@.len()
            + 2,
        deposited_json(n).subrange(
            0,
            "{\"type\":\"bankevent.fundsdeposited\",\"amount\":"@.len() as int,
        ) == "{\"type\":\"bankevent.fundsdeposited\",\"amount\":"@,
        deposited_json(n).last() == '}',
        deposited_json(n).subrange(
            "{\"type\":\"bankevent.fundsdeposited\",\"amount\":"@.len() as int,
            deposited_json(n).len() - 1,
        ) == dec_of(n as nat),
{
    reveal_strlit("{\"type\":\"bankevent.fundsdeposited\",\"amount\":");
    reveal_strlit("}");
    lemma_dec_of_canonical(n as nat);
    let p = "{\"type\":\"bankevent.fundsdeposited\",\"amount\":"@;
    let d = dec_of(n as nat);
    let s = deposited_json(n);
    assert(s.subrange(0, p.len() as int) =~= p);
    assert(s.subrange(p.len() as int, s.len() - 1) =~= d);
}

/// The shape of a withdrawn payload, as for the deposited one.
proof fn lemma_withdrawn_json_shape(n: u32)
    ensures
        withdrawn_json(n).len() >= "{\"type\":\"bankevent.fundswithdrawn\",\"amount\":"@.len()
            + 2,
        withdrawn_json(n).subrange(
            0,
            "{\"type\":\"bankevent.fundswithdrawn\",\"amount\":"@.len() as int,
        ) == "{\"type\":\"bankevent.fundswithdrawn\",\"amount\":"@,
        withdrawn_json(n).last() == '}',
        withdrawn_json(n).subrange(
            "{\"type\":\"bankevent.fundswithdrawn\",\"amount\":"@.len() as int,
            withdrawn_json(n).len() - 1,
        ) == dec_of(n as nat),
{
    reveal_strlit("{\"type\":\"bankevent.fundswithdrawn\",\"amount\":");
    reveal_strlit("}");
    lemma_dec_of_canonical(n as nat);
    let p = "{\"type\":\"bankevent.fundswithdrawn\",\"amount\":"@;
    let d = dec_of(n as nat);
    let s = withdrawn_json(n);
    assert(s.subrange(0, p.len() as int) =~= p);
    assert(s.subrange(p.len() as int, s.len() - 1) =~= d);
}

/// No text is at once a deposited payload and a withdrawn payload: the two
/// differ inside their fixed field text.
proof fn lemma_payloads_disjoint(a: u32, b: u32)
    ensures
        deposited_json(a) != withdrawn_json(b),
{
    reveal_strlit("{\"type\":\"bankevent.fundsdeposited\",\"amount\":");
    reveal_strlit("{\"type\":\"bankevent.fundswithdrawn\",\"amount\":");
    if deposited_json(a) == withdrawn_json(b) {
        lemma_deposited_json_shape(a);
        lemma_withdrawn_json_shape(b);
        let pd = "{\"type\":\"bankevent.fundsdeposited\",\"amount\":"@;
        let pw = "{\"type\":\"bankevent.fundswithdrawn\",\"amount\":"@;
        assert(deposited_json(a).subrange(0, 44)[24] == pd[24]);
        assert(withdrawn_json(b).subrange(0, 44)[24] == pw[24]);
        assert(pd[24] == 'd' && pw[24] == 'w');
        assert(false);
    }
}

/// Two equal deposited payloads carry the same amount.
proof fn lemma_deposited_json_injective(a: u32, b: u32)
    ensures
        deposited_json(a) == deposited_json(b) ==> a == b,
{
    if deposited_json(a) == deposited_json(b) {
        lemma_deposited_json_shape(a);
        lemma_deposited_json_shape(b);
        lemma_dec_of_canonical(a as nat);
        lemma_dec_of_canonical(b as nat);
        assert(dec_of(a as nat) == dec_of(b as nat));
        assert(value_of_digits(dec_of(a as nat)) == value_of_digits(dec_of(b as nat)));
    }
}

/// Two equal withdrawn payloads carry the same amount.
proof fn lemma_withdrawn_json_injective(a: u32, b: u32)
    ensures
        withdrawn_json(a) == withdrawn_json(b) ==> a == b,
{
    if withdrawn_json(a) == withdrawn_json(b) {
        lemma_withdrawn_json_shape(a);
        lemma_withdrawn_json_shape(b);
        lemma_dec_of_canonical(a as nat);
        lemma_dec_of_canonical(b as nat);
        assert(dec_of(a as nat) == dec_of(b as nat));
        assert(value_of_digits(dec_of(a as nat)) == value_of_digits(dec_of(b as nat)));
    }
}

/// Whether the characters of `s` start with those of `prefix`.
fn starts_with(s: &str, prefix: &str) -> (r: bool)
    ensures
        r == (s@.len() >= prefix@.len() && s@.subrange(0, prefix@.len() as int) == prefix@),
{
    let plen = prefix.unicode_len();
    let slen = s.unicode_len();
    if slen < plen {
        return false;
    }
    let mut i: usize = 0;
    while i < plen
        invariant
            i <= plen,
            plen == prefix@.len(),
            slen == s@.len(),
            plen <= slen,
            forall|k: int| 0 <= k < i as int ==> s@[k] == prefix@[k],
        decreases plen - i,
    {
        if s.get_char(i) != prefix.get_char(i) {
            proof {
                assert(s@.subrange(0, plen as int)[i as int] == s@[i as int]);
            }
            return false;
        }
        i = i + 1;
    }
    proof {
        assert(s@.subrange(0, plen as int) =~= prefix@);
    }
    true
}

/// Reads the amount out of a payload text whose fixed field text of length
/// `plen` has already matched: the rest must be a canonical decimal fitting
/// in a `u32`, closed by a final brace.
fn parse_amount_suffix(s: &str, plen: usize) -> (r: Option<u32>)
    requires
        plen <= s@.len(),
    ensures
        r is Some <==> s@.len() >= plen + 2 && s@.last() == '}' && is_canonical_dec(
            s@.subrange(plen as int, s@.len() - 1),
        ) && value_of_digits(s@.subrange(plen as int, s@.len() - 1)) <= u32::MAX,
        r matches Some(v) ==> v == value_of_digits(s@.subrange(plen as int, s@.len() - 1)),
{
    let slen = s.unicode_len();
    if slen - plen < 2 {
        return None;
    }
    let last = s.get_char(slen - 1);
    if last != '}' {
        return None;
    }
    parse_decimal_u32(s, plen, slen - 1)
}

impl Event for BankEvent {
    open spec fn event_type_spec(&self) -> Seq<char> {
        match *self {
            BankEvent::FundsDeposited { .. } => "bankevent.fundsdeposited"@,
            BankEvent::FundsWithdrawn { .. } => "bankevent.fundswithdrawn"@,
        }
    }

    open spec fn event_type_version_spec(&self) -> Seq<char> {
        "1.0"@
    }

    open spec fn event_source_spec(&self) -> Seq<char> {
        "events://github.com/pholactery/eventsourcing/samples/bank"@
    }

    open spec fn data_json_spec(&self) -> Seq<char> {
        match *self {
            BankEvent::FundsDeposited { amount } => deposited_json(amount),
            BankEvent::FundsWithdrawn { amount } => withdrawn_json(amount),
        }
    }

    open spec fn from_data_json_spec(s: Seq<char>) -> Option<BankEvent> {
        if exists|n: u32| s == deposited_json(n) {
            Some(
                BankEvent::FundsDeposited { amount: choose|n: u32| s == deposited_json(n) },
            )
        } else if exists|n: u32| s == withdrawn_json(n) {
            Some(
                BankEvent::FundsWithdrawn { amount: choose|n: u32| s == withdrawn_json(n) },
            )
        } else {
            None
        }
    }

    fn event_type(&self) -> (r: &str) {
        match *self {
            BankEvent::FundsDeposited { .. } => "bankevent.fundsdeposited",
            BankEvent::FundsWithdrawn { .. } => "bankevent.fundswithdrawn",
        }
    }

    fn event_type_version(&self) -> (r: &str) {
        "1.0"
    }

    fn event_source(&self) -> (r: &str) {
        "events://github.com/pholactery/eventsourcing/samples/bank"
    }

    fn data_json(&self) -> (r: String) {
        let amount: u32 = match *self {
            BankEvent::FundsDeposited { amount } => amount,
            BankEvent::FundsWithdrawn { amount } => amount,
        };
        let prefix: &str = match *self {
            BankEvent::FundsDeposited { .. } => "{\"type\":\"bankevent.fundsdeposited\",\"amount\":",
            BankEvent::FundsWithdrawn { .. } => "{\"type\":\"bankevent.fundswithdrawn\",\"amount\":",
        };
        let mut out = prefix.to_owned();
        let amount_text = u32_to_decimal(amount);
        out.append(amount_text.as_str());
        out.append("}");
        proof {
            assert(out@ =~= self.data_json_spec());
        }
        out
    }

    fn from_data_json(s: &str) -> (r: Option<BankEvent>) {
        let dep = starts_with(s, "{\"type\":\"bankevent.fundsdeposited\",\"amount\":");
        if dep {
            let plen = "{\"type\":\"bankevent.fundsdeposited\",\"amount\":".unicode_len();
            match parse_amount_suffix(s, plen) {
                Some(v) => {
                    proof {
                        let p = "{\"type\":\"bankevent.fundsdeposited\",\"amount\":"@;
                        let mid = s@.subrange(p.len() as int, s@.len() - 1);
                        lemma_canonical_dec_of(mid);
                        assert(dec_of(v as nat) == mid);
                        reveal_strlit("}");
                        assert(s@ =~= deposited_json(v));
                        let n0 = choose|n: u32| s@ == deposited_json(n);
                        lemma_deposited_json_injective(n0, v);
                    }
                    Some(BankEvent::FundsDeposited { amount: v })
                },
                None => {
                    proof {
                        assert forall|n: u32| s@ != deposited_json(n) by {
                            lemma_deposited_json_shape(n);
                            lemma_dec_of_canonical(n as nat);
                        }
                        assert forall|n: u32| s@ != withdrawn_json(n) by {
                            if s@ == withdrawn_json(n) {
                                lemma_withdrawn_json_shape(n);
                                lemma_payloads_disjoint(n, n);
                                reveal_strlit("{\"type\":\"bankevent.fundsdeposited\",\"amount\":");
                                reveal_strlit("{\"type\":\"bankevent.fundswithdrawn\",\"amount\":");
                                let pd = "{\"type\":\"bankevent.fundsdeposited\",\"amount\":"@;
                                let pw = "{\"type\":\"bankevent.fundswithdrawn\",\"amount\":"@;
                                assert(s@.subrange(0, 44)[24] == pd[24]);
                                assert(s@.subrange(0, 44)[24] == pw[24]);
                                assert(pd[24] == 'd' && pw[24] == 'w');
                                assert(false);
                            }
                        }
                    }
                    None
                },
            }
        } else {
            let wd = starts_with(s, "{\"type\":\"bankevent.fundswithdrawn\",\"amount\":");
            if wd {
                let plen = "{\"type\":\"bankevent.fundswithdrawn\",\"amount\":".unicode_len();
                match parse_amount_suffix(s, plen) {
                    Some(v) => {
                        proof {
                            let p = "{\"type\":\"bankevent.fundswithdrawn\",\"amount\":"@;
                            let mid = s@.subrange(p.len() as int, s@.len() - 1);
                            lemma_canonical_dec_of(mid);
                            assert(dec_of(v as nat) == mid);
                            reveal_strlit("}");
                            assert(s@ =~= withdrawn_json(v));
                            assert forall|n: u32| s@ != deposited_json(n) by {
                                lemma_payloads_disjoint(n, v);
                            }
                            let n0 = choose|n: u32| s@ == withdrawn_json(n);
                            lemma_withdrawn_json_injective(n0, v);
                        }
                        Some(BankEvent::FundsWithdrawn { amount: v })
                    },
                    None => {
                        proof {
                            assert forall|n: u32| s@ != deposited_json(n) by {
                                lemma_deposited_json_shape(n);
                            }
                            assert forall|n: u32| s@ != withdrawn_json(n) by {
                                lemma_withdrawn_json_shape(n);
                                lemma_dec_of_canonical(n as nat);
                            }
                        }
                        None
                    },
                }
            } else {
                proof {
                    assert forall|n: u32| s@ != deposited_json(n) by {
                        lemma_deposited_json_shape(n);
                    }
                    assert forall|n: u32| s@ != withdrawn_json(n) by {
                        lemma_withdrawn_json_shape(n);
                    }
                }
                None
            }
        }
    }

    fn dup(&self) -> (r: Self) {
        *self
    }

    proof fn lemma_data_json_round_trip(&self) {
        match *self {
            BankEvent::FundsDeposited { amount } => {
                assert(deposited_json(amount) == deposited_json(amount));
                let n0 = choose|n: u32| deposited_json(amount) == deposited_json(n);
                lemma_deposited_json_injective(n0, amount);
            },
            BankEvent::FundsWithdrawn { amount } => {
                assert forall|n: u32| withdrawn_json(amount) != deposited_json(n) by {
                    lemma_payloads_disjoint(n, amount);
                }
                assert(withdrawn_json(amount) == withdrawn_json(amount));
                let n0 = choose|n: u32| withdrawn_json(amount) == withdrawn_json(n);
                lemma_withdrawn_json_injective(n0, amount);
            },
        }
    }
}

impl AggregateState for AccountData {
    open spec fn generation_spec(&self) -> u64 {
        self.generation
    }

    fn generation(&self) -> (r: u64) {
        self.generation
    }

    fn dup(&self) -> (r: Self) {
        *self
    }
}

/// The account aggregate: all the banking domain's business logic.
pub struct Account;

impl Aggregate for Account {
    type Event = BankEvent;

    type Command = BankCommand;

    type State = AccountData;

    open spec fn apply_event_spec(state: AccountData, evt: BankEvent) -> Result<
        AccountData,
        Seq<char>,
    > {
        if state.generation == u64::MAX {
            Err("generation counter exhausted"@)
        } else {
            match evt {
                BankEvent::FundsDeposited { amount } => {
                    if state.balance + amount > u32::MAX {
                        Err("balance overflow"@)
                    } else {
                        Ok(
                            AccountData {
                                balance: (state.balance + amount) as u32,
                                generation: (state.generation + 1) as u64,
                            },
                        )
                    }
                },
                BankEvent::FundsWithdrawn { amount } => {
                    if amount > state.balance {
                        Err("insufficient funds"@)
                    } else {
                        Ok(
                            AccountData {
                                balance: (state.balance - amount) as u32,
                                generation: (state.generation + 1) as u64,
                            },
                        )
                    }
                },
            }
        }
    }

    open spec fn handle_command_spec(state: AccountData, cmd: BankCommand) -> Result<
        Seq<BankEvent>,
        Seq<char>,
    > {
        match cmd {
            BankCommand::DepositFunds { amount } => Ok(seq![BankEvent::FundsDeposited { amount }]),
            BankCommand::WithdrawFunds { amount } => Ok(
                seq![BankEvent::FundsWithdrawn { amount }],
            ),
        }
    }

    proof fn lemma_apply_event_generation(state: AccountData, evt: BankEvent) {
    }

    fn apply_event(state: &AccountData, evt: &BankEvent) -> (r: Result<AccountData, Error>) {
        if state.generation == u64::MAX {
            return Err(
                Error {
                    kind: Kind::ApplicationFailure("generation counter exhausted".to_owned()),
                },
            );
        }
        match *evt {
            BankEvent::FundsDeposited { amount } => {
                match state.balance.checked_add(amount) {
                    Some(balance) => Ok(
                        AccountData { balance, generation: state.generation + 1 },
                    ),
                    None => Err(
                        Error { kind: Kind::ApplicationFailure("balance overflow".to_owned()) },
                    ),
                }
            },
            BankEvent::FundsWithdrawn { amount } => {
                if amount > state.balance {
                    Err(Error { kind: Kind::ApplicationFailure("insufficient funds".to_owned()) })
                } else {
                    Ok(
                        AccountData {
                            balance: state.balance - amount,
                            generation: state.generation + 1,
                        },
                    )
                }
            },
        }
    }

    fn handle_command(state: &AccountData, cmd: &BankCommand) -> (r: Result<Vec<BankEvent>, Error>) {
        let evt = match *cmd {
            BankCommand::DepositFunds { amount } => BankEvent::FundsDeposited { amount },
            BankCommand::WithdrawFunds { amount } => BankEvent::FundsWithdrawn { amount },
        };
        let mut evts: Vec<BankEvent> = Vec::new();
        evts.push(evt);
        proof {
            assert(evts@ =~= Self::handle_command_spec(*state, *cmd)->Ok_0);
        }
        Ok(evts)
    }
}

/// Dispatcher wiring for the account aggregate, using the derived
/// decide-then-append pipeline.
pub struct AccountDispatcher;

impl Dispatcher for AccountDispatcher {
    type Command = BankCommand;

    type Event = BankEvent;

    type State = AccountData;

    type Aggregate = Account;
}

} // verus!
