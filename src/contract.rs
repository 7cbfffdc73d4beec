use vstd::prelude::*;

use crate::account::{account_id_is_valid, is_valid_account};
use crate::amount::{decimal_digits, decimal_value, is_decimal, parse_amount};
use crate::error::GatewayError;
use crate::fee::{compute_fee, fee_spec};

verus! {

/// The marker that event records carry for the native currency: `near`.
pub open spec fn native_marker() -> Seq<char> {
    seq!['n', 'e', 'a', 'r']
}

/// An instruction to the host: move `amount` of the native currency to
/// `receiver`.
#[derive(Debug, Clone)]
pub struct Transfer {
    pub receiver: String,
    pub amount: u128,
}

/// Record of a token registration.
#[derive(Debug, Clone)]
pub struct TokenAdded {
    pub token_symbol: String,
    pub token_address: String,
}

/// Record of a settled payment: the request as it came, with the invoice
/// amount `amt` as read from its text, and what was made of it. `net_amount`
/// is what the receiver gets.
#[derive(Debug, Clone)]
pub struct PaymentSuccessful {
    pub payment_reference: String,
    pub token_event_address: String,
    pub caller: String,
    pub receiver_address: String,
    pub amt: u128,
    pub sender_should_pay_charge: bool,
    pub attached_deposit: u128,
    pub net_amount: u128,
    pub fee_amount: u128,
    pub fee_address: String,
    pub public_key: String,
    pub payment_type: String,
}

/// Record of a sweep of the whole native balance.
#[derive(Debug, Clone)]
pub struct SweepContract {
    pub token_address: String,
    pub owner: String,
    pub recipient: String,
}

/// What a payment hands back to the host: its record and the two transfers
/// to issue.
#[derive(Debug, Clone)]
pub struct Settlement {
    pub event: PaymentSuccessful,
    pub fee_transfer: Transfer,
    pub payment_transfer: Transfer,
}

/// What a sweep hands back to the host: its record and the transfer to issue.
#[derive(Debug, Clone)]
pub struct Sweep {
    pub event: SweepContract,
    pub transfer: Transfer,
}

/// The ledger as a mathematical value. `tokens` lists the registrations in
/// the order they were made.
pub struct LedgerView {
    pub owner: Seq<char>,
    pub gateway_charge: u128,
    pub gateway_amount_converter: u128,
    pub tokens: Seq<(Seq<char>, Seq<char>)>,
    pub balance: u128,
}

/// The address registered for `symbol`, the latest registration first.
pub open spec fn lookup_token(tokens: Seq<(Seq<char>, Seq<char>)>, symbol: Seq<char>) -> Option<
    Seq<char>,
>
    decreases tokens.len(),
{
    if tokens.len() == 0 {
        None
    } else if tokens.last().0 == symbol {
        Some(tokens.last().1)
    } else {
        lookup_token(tokens.drop_last(), symbol)
    }
}

/// No symbol appears twice in the registry.
pub open spec fn symbols_unique(tokens: Seq<(Seq<char>, Seq<char>)>) -> bool {
    forall|i: int, j: int|
        0 <= i < j < tokens.len() ==> #[trigger] tokens[i].0 != #[trigger] tokens[j].0
}

/// A symbol that lookup does not find is held by no registration.
pub proof fn lemma_lookup_none(tokens: Seq<(Seq<char>, Seq<char>)>, symbol: Seq<char>)
    requires
        lookup_token(tokens, symbol) is None,
    ensures
        forall|i: int| 0 <= i < tokens.len() ==> #[trigger] tokens[i].0 != symbol,
    decreases tokens.len(),
{
    if tokens.len() > 0 {
        lemma_lookup_none(tokens.drop_last(), symbol);
        assert forall|i: int| 0 <= i < tokens.len() implies #[trigger] tokens[i].0 != symbol by {
            if i < tokens.len() - 1 {
                assert(tokens[i] == tokens.drop_last()[i]);
            }
        }
    }
}

/// How a payment request is decided, checked in this order: the amount must
/// be a positive decimal that fits; the fee must be computable; the deposit
/// must cover the amount, plus the fee where the sender pays it; a fee carved
/// out of the amount must not exceed it; the receiver must be a well-formed
/// account id. On success, the fee and the net amount for the receiver.
pub open spec fn payment_terms(
    amount: Seq<char>,
    charge: u128,
    converter: u128,
    attached_deposit: u128,
    receiver: Seq<char>,
    sender_should_pay_charge: bool,
) -> Result<(u128, u128), GatewayError> {
    let amt = decimal_value(decimal_digits(amount));
    if !is_decimal(amount) || amt > u128::MAX || amt == 0 {
        Err(GatewayError::InvalidAmount)
    } else if charge * amt > u128::MAX {
        Err(GatewayError::ArithmeticOverflow)
    } else if converter == 0 {
        Err(GatewayError::DivisionByZero)
    } else {
        let fee = fee_spec(amt as int, charge as int, converter as int);
        if sender_should_pay_charge && attached_deposit < amt + fee {
            Err(GatewayError::InsufficientBalance)
        } else if !sender_should_pay_charge && attached_deposit < amt {
            Err(GatewayError::InsufficientBalance)
        } else if !sender_should_pay_charge && fee > amt {
            Err(GatewayError::ArithmeticOverflow)
        } else if !is_valid_account(receiver) {
            Err(GatewayError::InvalidAddress)
        } else if sender_should_pay_charge {
            Ok((fee as u128, amt as u128))
        } else {
            Ok((fee as u128, (amt - fee) as u128))
        }
    }
}

/// A payment never hands out more than was attached to it. The receiver gets
/// the whole amount where the sender pays the fee; otherwise fee and net
/// together make up exactly the amount.
pub proof fn lemma_payment_conserves(
    amount: Seq<char>,
    charge: u128,
    converter: u128,
    attached_deposit: u128,
    receiver: Seq<char>,
    sender_should_pay_charge: bool,
)
    ensures
        payment_terms(amount, charge, converter, attached_deposit, receiver, sender_should_pay_charge) matches Ok((fee, net)) ==> {
            &&& fee + net <= attached_deposit
            &&& fee == fee_spec(decimal_value(decimal_digits(amount)) as int, charge as int, converter as int)
            &&& sender_should_pay_charge ==> net == decimal_value(decimal_digits(amount))
            &&& !sender_should_pay_charge ==> fee + net == decimal_value(decimal_digits(amount))
        },
{
    let amt = decimal_value(decimal_digits(amount));
    if is_decimal(amount) && amt <= u128::MAX && amt != 0 && charge * amt <= u128::MAX
        && converter != 0 {
        crate::fee::lemma_fee_monotonic(0, amt as int, charge as int, charge as int, converter as int);
    }
}

/// Of two accepted payments under the same converter, the one with the larger
/// amount and the larger charge never carries the smaller fee.
pub proof fn lemma_payment_fee_monotonic(
    amount1: Seq<char>,
    amount2: Seq<char>,
    charge1: u128,
    charge2: u128,
    converter: u128,
    deposit1: u128,
    deposit2: u128,
    receiver1: Seq<char>,
    receiver2: Seq<char>,
    sender_pays1: bool,
    sender_pays2: bool,
)
    requires
        payment_terms(amount1, charge1, converter, deposit1, receiver1, sender_pays1) is Ok,
        payment_terms(amount2, charge2, converter, deposit2, receiver2, sender_pays2) is Ok,
        decimal_value(decimal_digits(amount1)) <= decimal_value(decimal_digits(amount2)),
        charge1 <= charge2,
    ensures
        payment_terms(amount1, charge1, converter, deposit1, receiver1, sender_pays1)->Ok_0.0
            <= payment_terms(amount2, charge2, converter, deposit2, receiver2, sender_pays2)->Ok_0.0,
{
    lemma_payment_conserves(amount1, charge1, converter, deposit1, receiver1, sender_pays1);
    lemma_payment_conserves(amount2, charge2, converter, deposit2, receiver2, sender_pays2);
    crate::fee::lemma_fee_monotonic(
        decimal_value(decimal_digits(amount1)) as int,
        decimal_value(decimal_digits(amount2)) as int,
        charge1 as int,
        charge2 as int,
        converter as int,
    );
}

/// For a positive amount whose fee can be computed, a payment is refused for
/// want of funds exactly when the deposit is below the amount, plus the fee
/// where the sender pays it.
pub proof fn lemma_insufficient_exactly(
    amount: Seq<char>,
    charge: u128,
    converter: u128,
    attached_deposit: u128,
    receiver: Seq<char>,
    sender_should_pay_charge: bool,
)
    requires
        is_decimal(amount),
        0 < decimal_value(decimal_digits(amount)) <= u128::MAX,
        charge * decimal_value(decimal_digits(amount)) <= u128::MAX,
        converter > 0,
    ensures
        ({
            let amt = decimal_value(decimal_digits(amount));
            let fee = fee_spec(amt as int, charge as int, converter as int);
            let required = if sender_should_pay_charge {
                amt + fee
            } else {
                amt as int
            };
            (payment_terms(amount, charge, converter, attached_deposit, receiver, sender_should_pay_charge)
                == Err::<(u128, u128), GatewayError>(GatewayError::InsufficientBalance))
                <==> attached_deposit < required
        }),
{
}

/// After registering `x` under `symbol`, looking `symbol` up gives `x`.
pub proof fn lemma_add_then_get(
    tokens: Seq<(Seq<char>, Seq<char>)>,
    symbol: Seq<char>,
    x: Seq<char>,
)
    ensures
        lookup_token(tokens.push((symbol, x)), symbol) == Some(x),
{
    assert(tokens.push((symbol, x)).last() == (symbol, x));
}

/// The gateway's state: its owner, the fee's numerator and denominator, the
/// token registry, and the native balance that the host last reported.
pub struct Contract {
    owner: String,
    gateway_charge: u128,
    gateway_amount_converter: u128,
    tokens: Vec<(String, String)>,
    balance: u128,
}

impl View for Contract {
    type V = LedgerView;

    closed spec fn view(&self) -> LedgerView {
        LedgerView {
            owner: self.owner@,
            gateway_charge: self.gateway_charge,
            gateway_amount_converter: self.gateway_amount_converter,
            tokens: self.tokens@.map_values(|e: (String, String)| (e.0@, e.1@)),
            balance: self.balance,
        }
    }
}

impl Contract {
    /// Creates the state with the given fee parameters and owner, an empty
    /// registry and no balance yet. Fails with `AlreadyInitialized` exactly
    /// when the host already holds a state.
    pub fn init(
        state_exists: bool,
        gateway_charge: u128,
        gateway_amount_converter: u128,
        owner: String,
    ) -> (r: Result<Contract, GatewayError>)
        ensures
            r is Err <==> state_exists,
            r matches Err(e) ==> e == GatewayError::AlreadyInitialized,
            r matches Ok(c) ==> symbols_unique(c@.tokens),
            r matches Ok(c) ==> c@ == (LedgerView {
                owner: owner@,
                gateway_charge,
                gateway_amount_converter,
                tokens: Seq::empty(),
                balance: 0,
            }),
    {
        if state_exists {
            return Err(GatewayError::AlreadyInitialized);
        }
        let c = Contract {
            owner,
            gateway_charge,
            gateway_amount_converter,
            tokens: Vec::new(),
            balance: 0,
        };
        assert(c@.tokens =~= Seq::empty());
        Ok(c)
    }

    /// The default configuration: a fee of 1/1000 owned by `owner`.
    pub fn with_default_fees(owner: String) -> (c: Contract)
        ensures
            symbols_unique(c@.tokens),
            c@ == (LedgerView {
                owner: owner@,
                gateway_charge: 1,
                gateway_amount_converter: 1000,
                tokens: Seq::empty(),
                balance: 0,
            }),
    {
        let c = Contract {
            owner,
            gateway_charge: 1,
            gateway_amount_converter: 1000,
            tokens: Vec::new(),
            balance: 0,
        };
        assert(c@.tokens =~= Seq::empty());
        c
    }

    /// Records the native balance that the host reports for the contract,
    /// the deposit attached to the current call included.
    pub fn sync_balance(&mut self, account_balance: u128)
        ensures
            final(self)@ == (LedgerView { balance: account_balance, ..old(self)@ }),
    {
        self.balance = account_balance;
    }

    /// The contract's native balance.
    pub fn get_total_balance(&self) -> (r: u128)
        ensures
            r == self@.balance,
    {
        self.balance
    }

    /// The address registered for `token_symbol`, if any.
    pub fn get_token(&self, token_symbol: String) -> (r: Option<String>)
        ensures
            r is None <==> lookup_token(self@.tokens, token_symbol@) is None,
            r matches Some(a) ==> lookup_token(self@.tokens, token_symbol@) == Some(a@),
    {
        let ghost v = self@.tokens;
        let mut i: usize = self.tokens.len();
        assert(v.subrange(0, i as int) =~= v);
        while i > 0
            invariant
                i <= self.tokens@.len(),
                v == self@.tokens,
                lookup_token(v, token_symbol@) == lookup_token(v.subrange(0, i as int), token_symbol@),
            decreases i,
        {
            let e = &self.tokens[i - 1];
            assert(v.subrange(0, i as int).last() == v[i - 1]);
            if e.0 == token_symbol {
                return Some(e.1.clone());
            }
            assert(v.subrange(0, i as int).drop_last() =~= v.subrange(0, i - 1));
            i = i - 1;
        }
        None
    }

    /// Registers `token_address` under `token_symbol`. Only the owner may do
    /// so (`Unauthorized`), and a symbol is registered at most once
    /// (`TokenAlreadyExists`); a refused call changes nothing.
    pub fn add_token(&mut self, caller: &String, token_symbol: String, token_address: String) -> (r:
        Result<TokenAdded, GatewayError>)
        ensures
            caller@ != old(self)@.owner ==> r matches Err(GatewayError::Unauthorized),
            caller@ == old(self)@.owner && lookup_token(old(self)@.tokens, token_symbol@) is Some
                ==> r matches Err(GatewayError::TokenAlreadyExists),
            r is Err ==> final(self)@ == old(self)@,
            symbols_unique(old(self)@.tokens) ==> symbols_unique(final(self)@.tokens),
            caller@ == old(self)@.owner && lookup_token(old(self)@.tokens, token_symbol@) is None
                ==> r is Ok,
            r matches Ok(ev) ==> {
                &&& ev.token_symbol@ == token_symbol@
                &&& ev.token_address@ == token_address@
                &&& final(self)@ == (LedgerView {
                    tokens: old(self)@.tokens.push((token_symbol@, token_address@)),
                    ..old(self)@
                })
            },
    {
        if let Err(e) = self.check_owner(caller) {
            return Err(e);
        }
        if self.get_token(token_symbol.clone()).is_some() {
            return Err(GatewayError::TokenAlreadyExists);
        }
        proof {
            lemma_lookup_none(old(self)@.tokens, token_symbol@);
        }
        self.tokens.push((token_symbol.clone(), token_address.clone()));
        assert(self@.tokens =~= old(self)@.tokens.push((token_symbol@, token_address@)));
        Ok(TokenAdded { token_symbol, token_address })
    }

    /// The fee's denominator.
    pub fn get_gateway_amount_converter(&self) -> (r: u128)
        ensures
            r == self@.gateway_amount_converter,
    {
        self.gateway_amount_converter
    }

    /// Replaces the fee's denominator; owner only. No bound is enforced here:
    /// a zero denominator makes later payments fail with `DivisionByZero`.
    pub fn set_gateway_amount_converter(&mut self, caller: &String, fee: u128) -> (r: Result<
        (),
        GatewayError,
    >)
        ensures
            r is Ok <==> caller@ == old(self)@.owner,
            r matches Err(e) ==> e == GatewayError::Unauthorized && final(self)@ == old(self)@,
            r is Ok ==> final(self)@ == (LedgerView {
                gateway_amount_converter: fee,
                ..old(self)@
            }),
    {
        if let Err(e) = self.check_owner(caller) {
            return Err(e);
        }
        self.gateway_amount_converter = fee;
        Ok(())
    }

    /// The fee's numerator.
    pub fn get_gateway_charge(&self) -> (r: u128)
        ensures
            r == self@.gateway_charge,
    {
        self.gateway_charge
    }

    /// Replaces the fee's numerator; owner only. No bound is enforced here.
    pub fn set_gateway_charge(&mut self, caller: &String, charge: u128) -> (r: Result<
        (),
        GatewayError,
    >)
        ensures
            r is Ok <==> caller@ == old(self)@.owner,
            r matches Err(e) ==> e == GatewayError::Unauthorized && final(self)@ == old(self)@,
            r is Ok ==> final(self)@ == (LedgerView { gateway_charge: charge, ..old(self)@ }),
    {
        if let Err(e) = self.check_owner(caller) {
            return Err(e);
        }
        self.gateway_charge = charge;
        Ok(())
    }

    /// The account allowed to make privileged calls.
    pub fn get_owner(&self) -> (r: String)
        ensures
            r@ == self@.owner,
    {
        self.owner.clone()
    }

    /// Hands ownership to `new_owner` at once; owner only.
    pub fn set_owner(&mut self, caller: &String, new_owner: String) -> (r: Result<
        (),
        GatewayError,
    >)
        ensures
            r is Ok <==> caller@ == old(self)@.owner,
            r matches Err(e) ==> e == GatewayError::Unauthorized && final(self)@ == old(self)@,
            r is Ok ==> final(self)@ == (LedgerView { owner: new_owner@, ..old(self)@ }),
    {
        if let Err(e) = self.check_owner(caller) {
            return Err(e);
        }
        self.owner = new_owner;
        Ok(())
    }
    /// Succeeds exactly when `caller` is the owner; otherwise `Unauthorized`.
    pub fn check_owner(&self, caller: &String) -> (r: Result<(), GatewayError>)
        ensures
            r is Ok <==> caller@ == self@.owner,
            r matches Err(e) ==> e == GatewayError::Unauthorized,
    {
        if *caller == self.owner {
            Ok(())
        } else {
            Err(GatewayError::Unauthorized)
        }
    }

    /// Settles a payment in the native currency that `caller` made with
    /// `attached_deposit` attached. `amount` is the invoice amount in decimal.
    ///
    /// The request is decided by `payment_terms`. On success the fee goes to
    /// the owner and the net amount to `receiver_address`: the contract's
    /// balance drops by both, and what was attached beyond them stays with the
    /// contract. A refused request changes nothing and issues no transfer.
    pub fn native_token_payment(
        &mut self,
        caller: &String,
        attached_deposit: u128,
        reference: String,
        public_key: String,
        receiver_address: String,
        amount: String,
        sender_should_pay_charge: bool,
        payment_type: String,
    ) -> (r: Result<Settlement, GatewayError>)
        requires
            attached_deposit <= old(self)@.balance,
        ensures
            r is Ok <==> payment_terms(
                amount@,
                old(self)@.gateway_charge,
                old(self)@.gateway_amount_converter,
                attached_deposit,
                receiver_address@,
                sender_should_pay_charge,
            ) is Ok,
            r matches Err(e) ==> {
                &&& payment_terms(
                    amount@,
                    old(self)@.gateway_charge,
                    old(self)@.gateway_amount_converter,
                    attached_deposit,
                    receiver_address@,
                    sender_should_pay_charge,
                ) == Err::<(u128, u128), GatewayError>(e)
                &&& final(self)@ == old(self)@
            },
            r matches Ok(s) ==> {
                &&& payment_terms(
                    amount@,
                    old(self)@.gateway_charge,
                    old(self)@.gateway_amount_converter,
                    attached_deposit,
                    receiver_address@,
                    sender_should_pay_charge,
                ) == Ok::<(u128, u128), GatewayError>((s.event.fee_amount, s.event.net_amount))
                &&& s.event.amt == decimal_value(decimal_digits(amount@))
                &&& s.event.sender_should_pay_charge == sender_should_pay_charge
                &&& s.event.attached_deposit == attached_deposit
                &&& s.event.fee_amount == fee_spec(
                    s.event.amt as int,
                    old(self)@.gateway_charge as int,
                    old(self)@.gateway_amount_converter as int,
                )
                &&& sender_should_pay_charge ==> s.event.net_amount == s.event.amt
                &&& !sender_should_pay_charge ==> s.event.net_amount == s.event.amt - s.event.fee_amount
                &&& s.event.fee_amount + s.event.net_amount <= attached_deposit
                &&& s.fee_transfer.receiver@ == old(self)@.owner
                &&& s.fee_transfer.amount == s.event.fee_amount
                &&& s.payment_transfer.receiver@ == receiver_address@
                &&& s.payment_transfer.amount == s.event.net_amount
                &&& s.event.payment_reference@ == reference@
                &&& s.event.token_event_address@ == native_marker()
                &&& s.event.caller@ == caller@
                &&& s.event.receiver_address@ == receiver_address@
                &&& s.event.fee_address@ == old(self)@.owner
                &&& s.event.public_key@ == public_key@
                &&& s.event.payment_type@ == payment_type@
                &&& final(self)@ == (LedgerView {
                    balance: (old(self)@.balance - s.event.fee_amount - s.event.net_amount) as u128,
                    ..old(self)@
                })
            },
    {
        let ghost terms = payment_terms(
            amount@,
            self.gateway_charge,
            self.gateway_amount_converter,
            attached_deposit,
            receiver_address@,
            sender_should_pay_charge,
        );
        let amt = match parse_amount(amount.as_str()) {
            None => {
                return Err(GatewayError::InvalidAmount);
            },
            Some(a) => a,
        };
        if amt == 0 {
            return Err(GatewayError::InvalidAmount);
        }
        let fee_amount = match compute_fee(amt, self.gateway_charge, self.gateway_amount_converter) {
            Err(e) => {
                return Err(e);
            },
            Ok(f) => f,
        };
        let net: u128;
        if sender_should_pay_charge {
            if amt > attached_deposit || fee_amount > attached_deposit - amt {
                return Err(GatewayError::InsufficientBalance);
            }
            net = amt;
        } else {
            if attached_deposit < amt {
                return Err(GatewayError::InsufficientBalance);
            }
            if fee_amount > amt {
                return Err(GatewayError::ArithmeticOverflow);
            }
            net = amt - fee_amount;
        }
        if !account_id_is_valid(receiver_address.as_str()) {
            return Err(GatewayError::InvalidAddress);
        }
        assert(terms == Ok::<(u128, u128), GatewayError>((fee_amount, net)));
        self.balance = self.balance - (fee_amount + net);
        proof {
            reveal_strlit("near");
            assert("near"@ =~= native_marker());
        }
        let event = PaymentSuccessful {
            payment_reference: reference,
            token_event_address: "near".to_owned(),
            caller: caller.clone(),
            receiver_address: receiver_address.clone(),
            amt,
            sender_should_pay_charge,
            attached_deposit,
            net_amount: net,
            fee_amount,
            fee_address: self.owner.clone(),
            public_key,
            payment_type,
        };
        let fee_transfer = Transfer { receiver: self.owner.clone(), amount: fee_amount };
        let payment_transfer = Transfer { receiver: receiver_address, amount: net };
        Ok(Settlement { event, fee_transfer, payment_transfer })
    }

    /// Hands the contract's whole native balance to `recipient`. Only the
    /// owner may sweep; anyone else gets `Unauthorized` and nothing changes.
    pub fn sweep_native_token(&mut self, caller: &String, recipient: String) -> (r: Result<
        Sweep,
        GatewayError,
    >)
        ensures
            r is Ok <==> caller@ == old(self)@.owner,
            r matches Err(e) ==> e == GatewayError::Unauthorized && final(self)@ == old(self)@,
            r matches Ok(s) ==> {
                &&& s.transfer.receiver@ == recipient@
                &&& s.transfer.amount == old(self)@.balance
                &&& s.event.token_address@ == native_marker()
                &&& s.event.owner@ == old(self)@.owner
                &&& s.event.recipient@ == recipient@
                &&& final(self)@ == (LedgerView { balance: 0, ..old(self)@ })
            },
    {
        if let Err(e) = self.check_owner(caller) {
            return Err(e);
        }
        let available_balance = self.balance;
        self.balance = 0;
        proof {
            reveal_strlit("near");
            assert("near"@ =~= native_marker());
        }
        let event = SweepContract {
            token_address: "near".to_owned(),
            owner: self.owner.clone(),
            recipient: recipient.clone(),
        };
        Ok(Sweep { event, transfer: Transfer { receiver: recipient, amount: available_balance } })
    }
}

} // verus!
