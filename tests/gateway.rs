use konnadex_processor::{
    compute_fee, parse_amount, Contract, GatewayError,
};

const ONE_NEAR: u128 = 1_000_000_000_000_000_000_000_000;

fn accounts(id: usize) -> String {
    ["alice", "bob", "charlie", "danny", "eugene", "fargo"][id].to_string()
}

// A fresh contract as the host starts it: owned by the caller, with 100 NEAR
// on the account plus what the current call attaches.
fn deployed(owner: &str, attached: u128) -> Contract {
    let mut c = Contract::with_default_fees(owner.to_string());
    c.sync_balance(100 * ONE_NEAR + attached);
    c
}

#[test]
fn test_contract() {
    let caller = accounts(1);
    let mut contract = Contract::init(false, 1, 1000, accounts(1)).unwrap();

    assert_eq!(contract.get_gateway_amount_converter(), 1000);
    assert_eq!(contract.get_gateway_charge(), 1);
    assert_eq!(contract.get_owner(), accounts(1));

    contract.set_gateway_amount_converter(&caller, 2000).unwrap();
    assert_eq!(contract.get_gateway_amount_converter(), 2000);

    contract.set_gateway_charge(&caller, 2).unwrap();
    assert_eq!(contract.get_gateway_charge(), 2);

    contract.set_owner(&caller, accounts(2)).unwrap();
    assert_eq!(contract.get_owner(), accounts(2));
}

#[test]
fn test_add_token() {
    let caller = accounts(1);
    let mut contract = Contract::with_default_fees(caller.clone());

    let token_symbol = "BUSD".to_string();
    let token_address = accounts(1);
    contract
        .add_token(&caller, token_symbol.clone(), token_address.clone())
        .unwrap();

    assert_eq!(contract.get_token(token_symbol), Some(token_address));
}

#[test]
fn test_native_token_payment() {
    let caller = accounts(1);
    let attached: u128 = 2000000000000000000000000;
    let mut contract = deployed(&caller, attached);
    contract.add_token(&caller, "USDT".to_string(), accounts(1)).unwrap();

    let reference = "YHURE748".to_string();
    let public_key = "YHURE748ewwee3".to_string();
    let payment_type = "SDK".to_string();
    let receiver_address = accounts(2);
    let amount = "1000000000000000000000000";
    let sender_should_pay_charge = false;
    assert_eq!(contract.get_total_balance(), 102000000000000000000000000);
    contract
        .native_token_payment(
            &caller,
            attached,
            reference.clone(),
            public_key.clone(),
            receiver_address.clone(),
            amount.to_string(),
            sender_should_pay_charge,
            payment_type,
        )
        .unwrap();

    assert_eq!(contract.get_total_balance(), 101000000000000000000000000);
}

#[test]
fn test_sweep() {
    let caller = accounts(1);
    let mut contract = deployed(&caller, 1000000000000000000000000);
    let recipient = accounts(1);
    contract.sweep_native_token(&caller, recipient.clone()).unwrap();

    assert_eq!(
        contract.get_total_balance(),
        0,
        "Sweep failed: Available balance was not transferred"
    );
}

#[test]
fn fee_is_floor_of_rate_times_amount() {
    assert_eq!(compute_fee(ONE_NEAR, 1, 1000), Ok(1_000_000_000_000_000_000_000));
    assert_eq!(compute_fee(999, 1, 1000), Ok(0));
    assert_eq!(compute_fee(1999, 1, 1000), Ok(1));
    assert_eq!(compute_fee(10, 3, 7), Ok(4));
    assert_eq!(compute_fee(0, 5, 7), Ok(0));
}

#[test]
fn fee_grows_with_amount_and_charge() {
    let base = compute_fee(12_345, 3, 1000).unwrap();
    assert!(compute_fee(12_346, 3, 1000).unwrap() >= base);
    assert!(compute_fee(12_345, 4, 1000).unwrap() >= base);
    assert!(compute_fee(100_000, 9, 1000).unwrap() >= base);
}

#[test]
fn fee_errors() {
    assert_eq!(compute_fee(10, 1, 0), Err(GatewayError::DivisionByZero));
    assert_eq!(compute_fee(u128::MAX, 2, 1000), Err(GatewayError::ArithmeticOverflow));
    assert_eq!(compute_fee(u128::MAX, 1, 1), Ok(u128::MAX));
}

#[test]
fn amounts_parse_as_decimal() {
    assert_eq!(parse_amount("1000000000000000000000000"), Some(ONE_NEAR));
    assert_eq!(parse_amount("+42"), Some(42));
    assert_eq!(parse_amount("007"), Some(7));
    assert_eq!(parse_amount("340282366920938463463374607431768211455"), Some(u128::MAX));
    assert_eq!(parse_amount("340282366920938463463374607431768211456"), None);
    assert_eq!(parse_amount(""), None);
    assert_eq!(parse_amount("+"), None);
    assert_eq!(parse_amount("-1"), None);
    assert_eq!(parse_amount("12a"), None);
    assert_eq!(parse_amount("1.5"), None);
}

#[test]
fn sender_pays_fee_on_top() {
    let caller = accounts(0);
    let fee: u128 = 1_000_000_000_000_000_000_000;
    let mut contract = deployed(&accounts(1), ONE_NEAR + fee);
    let s = contract
        .native_token_payment(
            &caller,
            ONE_NEAR + fee,
            "ref".to_string(),
            "pk".to_string(),
            accounts(2),
            ONE_NEAR.to_string(),
            true,
            "SDK".to_string(),
        )
        .unwrap();
    assert_eq!(s.event.fee_amount, fee);
    assert_eq!(s.event.amt, ONE_NEAR);
    assert_eq!(s.event.net_amount, ONE_NEAR);
    assert!(s.event.sender_should_pay_charge);
    assert_eq!(s.event.attached_deposit, ONE_NEAR + fee);
    assert_eq!(s.fee_transfer.receiver, accounts(1));
    assert_eq!(s.fee_transfer.amount, fee);
    assert_eq!(s.payment_transfer.receiver, accounts(2));
    assert_eq!(s.payment_transfer.amount, ONE_NEAR);
    assert_eq!(s.event.fee_address, accounts(1));
    assert_eq!(s.event.caller, accounts(0));
    assert_eq!(s.event.token_event_address, "near");
    assert_eq!(s.event.payment_reference, "ref");
    assert_eq!(s.event.public_key, "pk");
    assert_eq!(s.event.payment_type, "SDK");
    assert_eq!(contract.get_total_balance(), 100 * ONE_NEAR);
}

#[test]
fn receiver_pays_fee_out_of_amount() {
    let mut contract = deployed(&accounts(1), 2 * ONE_NEAR);
    let s = contract
        .native_token_payment(
            &accounts(0),
            2 * ONE_NEAR,
            "ref".to_string(),
            "pk".to_string(),
            accounts(2),
            ONE_NEAR.to_string(),
            false,
            "SDK".to_string(),
        )
        .unwrap();
    let fee: u128 = 1_000_000_000_000_000_000_000;
    assert_eq!(s.event.fee_amount, fee);
    assert_eq!(s.event.amt, ONE_NEAR);
    assert_eq!(s.event.net_amount, ONE_NEAR - fee);
    assert_eq!(s.event.net_amount, 999_000_000_000_000_000_000_000);
    assert!(!s.event.sender_should_pay_charge);
    assert_eq!(s.event.attached_deposit, 2 * ONE_NEAR);
    assert_eq!(s.payment_transfer.amount, ONE_NEAR - fee);
    assert_eq!(s.fee_transfer.amount + s.payment_transfer.amount, ONE_NEAR);
    assert_eq!(contract.get_total_balance(), 101 * ONE_NEAR);
}

fn pay(contract: &mut Contract, attached: u128, receiver: &str, amount: &str, sender_pays: bool) -> Result<(), GatewayError> {
    contract
        .native_token_payment(
            &accounts(0),
            attached,
            "ref".to_string(),
            "pk".to_string(),
            receiver.to_string(),
            amount.to_string(),
            sender_pays,
            "SDK".to_string(),
        )
        .map(|_| ())
}

#[test]
fn payment_rejects_bad_amounts() {
    let mut contract = deployed(&accounts(1), 5000);
    assert_eq!(pay(&mut contract, 5000, "charlie", "0", false), Err(GatewayError::InvalidAmount));
    assert_eq!(pay(&mut contract, 5000, "charlie", "abc", true), Err(GatewayError::InvalidAmount));
    assert_eq!(pay(&mut contract, 5000, "charlie", "", true), Err(GatewayError::InvalidAmount));
    assert_eq!(contract.get_total_balance(), 100 * ONE_NEAR + 5000);
}

#[test]
fn payment_one_unit_short_is_insufficient() {
    // amount 2000 at 1/1000 carries a fee of 2
    let mut contract = deployed(&accounts(1), 2001);
    assert_eq!(pay(&mut contract, 2001, "charlie", "2000", true), Err(GatewayError::InsufficientBalance));
    assert_eq!(pay(&mut contract, 1999, "charlie", "2000", false), Err(GatewayError::InsufficientBalance));
    assert_eq!(contract.get_total_balance(), 100 * ONE_NEAR + 2001);
    assert_eq!(pay(&mut contract, 2002, "charlie", "2000", true), Ok(()));
    assert_eq!(contract.get_total_balance(), 100 * ONE_NEAR + 2001 - 2002);
}

#[test]
fn payment_keeps_the_excess() {
    let mut contract = deployed(&accounts(1), 10_000);
    assert_eq!(pay(&mut contract, 10_000, "charlie", "2000", false), Ok(()));
    assert_eq!(contract.get_total_balance(), 100 * ONE_NEAR + 10_000 - 2000);
}

#[test]
fn payment_rejects_bad_receiver() {
    let mut contract = deployed(&accounts(1), 5000);
    assert_eq!(pay(&mut contract, 5000, "Charlie", "1000", false), Err(GatewayError::InvalidAddress));
    assert_eq!(pay(&mut contract, 5000, "a", "1000", false), Err(GatewayError::InvalidAddress));
    assert_eq!(pay(&mut contract, 5000, "a..b", "1000", false), Err(GatewayError::InvalidAddress));
    assert_eq!(pay(&mut contract, 5000, "a.b-c_d.near", "1000", false), Ok(()));
}

#[test]
fn payment_with_broken_fee_parameters() {
    let owner = accounts(1);
    let mut contract = deployed(&owner, 5000);
    contract.set_gateway_amount_converter(&owner, 0).unwrap();
    assert_eq!(pay(&mut contract, 5000, "charlie", "1000", false), Err(GatewayError::DivisionByZero));
    contract.set_gateway_amount_converter(&owner, 10).unwrap();
    contract.set_gateway_charge(&owner, 20).unwrap();
    assert_eq!(pay(&mut contract, 5000, "charlie", "1000", false), Err(GatewayError::ArithmeticOverflow));
    contract.set_gateway_charge(&owner, u128::MAX).unwrap();
    assert_eq!(pay(&mut contract, 5000, "charlie", "1000", true), Err(GatewayError::ArithmeticOverflow));
    assert_eq!(contract.get_total_balance(), 100 * ONE_NEAR + 5000);
}

#[test]
fn second_registration_of_a_symbol_fails() {
    let owner = accounts(1);
    let mut contract = Contract::with_default_fees(owner.clone());
    let ev = contract.add_token(&owner, "BUSD".to_string(), "x.near".to_string()).unwrap();
    assert_eq!(ev.token_symbol, "BUSD");
    assert_eq!(ev.token_address, "x.near");
    assert_eq!(
        contract.add_token(&owner, "BUSD".to_string(), "y.near".to_string()).map(|_| ()),
        Err(GatewayError::TokenAlreadyExists)
    );
    assert_eq!(contract.get_token("BUSD".to_string()), Some("x.near".to_string()));
    assert_eq!(contract.get_token("USDT".to_string()), None);
}

#[test]
fn admin_calls_need_the_owner() {
    let owner = accounts(1);
    let stranger = accounts(2);
    let mut contract = Contract::with_default_fees(owner.clone());
    assert_eq!(contract.set_owner(&stranger, stranger.clone()), Err(GatewayError::Unauthorized));
    assert_eq!(contract.set_gateway_charge(&stranger, 5), Err(GatewayError::Unauthorized));
    assert_eq!(contract.set_gateway_amount_converter(&stranger, 5), Err(GatewayError::Unauthorized));
    assert_eq!(
        contract.add_token(&stranger, "BUSD".to_string(), "x.near".to_string()).map(|_| ()),
        Err(GatewayError::Unauthorized)
    );
    assert_eq!(contract.get_owner(), owner);
    assert_eq!(contract.get_gateway_charge(), 1);
    assert_eq!(contract.get_gateway_amount_converter(), 1000);
    assert_eq!(contract.get_token("BUSD".to_string()), None);
}

#[test]
fn sweep_by_stranger_is_refused() {
    let mut contract = deployed(&accounts(1), 7);
    assert_eq!(
        contract.sweep_native_token(&accounts(2), accounts(2)).map(|_| ()),
        Err(GatewayError::Unauthorized)
    );
    assert_eq!(contract.get_total_balance(), 100 * ONE_NEAR + 7);
    let s = contract.sweep_native_token(&accounts(1), accounts(3)).unwrap();
    assert_eq!(s.transfer.receiver, accounts(3));
    assert_eq!(s.transfer.amount, 100 * ONE_NEAR + 7);
    assert_eq!(s.event.owner, accounts(1));
    assert_eq!(s.event.recipient, accounts(3));
    assert_eq!(s.event.token_address, "near");
    assert_eq!(contract.get_total_balance(), 0);
}

#[test]
fn init_twice_is_refused() {
    assert!(matches!(
        Contract::init(true, 1, 1000, accounts(1)),
        Err(GatewayError::AlreadyInitialized)
    ));
}

#[test]
fn accessors_do_not_change_state() {
    let owner = accounts(1);
    let mut contract = deployed(&owner, 3);
    contract.add_token(&owner, "USDT".to_string(), "t.near".to_string()).unwrap();
    for _ in 0..3 {
        assert_eq!(contract.get_owner(), owner);
        assert_eq!(contract.get_gateway_charge(), 1);
        assert_eq!(contract.get_gateway_amount_converter(), 1000);
        assert_eq!(contract.get_total_balance(), 100 * ONE_NEAR + 3);
        assert_eq!(contract.get_token("USDT".to_string()), Some("t.near".to_string()));
    }
}

#[test]
fn deducted_fee_payment_drains_exactly_the_amount() {
    let mut contract = Contract::with_default_fees(accounts(1));
    contract.sync_balance(100 * ONE_NEAR);
    let s = contract
        .native_token_payment(
            &accounts(0),
            ONE_NEAR,
            "ref".to_string(),
            "pk".to_string(),
            accounts(2),
            ONE_NEAR.to_string(),
            false,
            "SDK".to_string(),
        )
        .unwrap();
    assert_eq!(s.event.amt, ONE_NEAR);
    assert_eq!(s.event.net_amount, ONE_NEAR - s.event.fee_amount);
    assert_eq!(contract.get_total_balance(), 99 * ONE_NEAR);
}
