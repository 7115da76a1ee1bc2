use crate::table::{entries_model, first_index, has_key, is_first, lemma_first_exists, lemma_lookup_at, lookup, put, AddressTable};
use vstd::prelude::*;
use vstd::string::StringExecFns;

verus! {

/// Base units per coin (18 decimals).
pub const IONX_DECIMALS: u128 = 1_000_000_000_000_000_000;

/// Coins allotted to each genesis validator.
pub const VALIDATOR_ALLOCATION: u128 = 95_238;

/// Number of genesis validators.
pub const GENESIS_VALIDATORS: u64 = 21;

/// Coins in the airdrop fund.
pub const AIRDROP_ALLOCATION: u128 = 10_000_000;

/// Coins in the reserved fund.
pub const RESERVED_ALLOCATION: u128 = 100_000;

/// An account's native balance, in base units, and nonce.
#[derive(Debug, Clone, Copy, PartialEq, Eq, Structural)]
pub struct Account {
    pub balance: u128,
    pub nonce: u64,
}

/// The pre-allocated accounts and their total.
#[derive(Debug, Clone)]
pub struct GenesisState {
    pub accounts: AddressTable<Account>,
    pub total_supply: u128,
}

/// Why a burn failed.
#[derive(Debug, Clone, Copy, PartialEq, Eq, Structural)]
pub enum BurnError {
    InsufficientBalance,
    AccountNotFound,
}

impl BurnError {
    /// A human-readable description of the error.
    pub fn message(&self) -> (r: String)
        ensures
            r@ == (match *self {
                BurnError::InsufficientBalance => "Insufficient balance"@,
                BurnError::AccountNotFound => "Account not found"@,
            }),
    {
        match self {
            BurnError::InsufficientBalance => "Insufficient balance".to_string(),
            BurnError::AccountNotFound => "Account not found".to_string(),
        }
    }
}

/// Decimal digits of `n`.
pub open spec fn decimal_chars(n: nat) -> Seq<char>
    decreases n,
{
    if n < 10 {
        seq![digit_char(n)]
    } else {
        decimal_chars(n / 10).push(digit_char(n % 10))
    }
}

/// The character of a decimal digit.
pub open spec fn digit_char(d: nat) -> char {
    if d == 0 { '0' } else if d == 1 { '1' } else if d == 2 { '2' } else if d == 3 { '3' }
    else if d == 4 { '4' } else if d == 5 { '5' } else if d == 6 { '6' } else if d == 7 { '7' }
    else if d == 8 { '8' } else { '9' }
}

fn digit_str(d: u64) -> (r: &'static str)
    requires
        d < 10,
    ensures
        r@ == seq![digit_char(d as nat)],
{
    proof {
        reveal_strlit("0");
        reveal_strlit("1");
        reveal_strlit("2");
        reveal_strlit("3");
        reveal_strlit("4");
        reveal_strlit("5");
        reveal_strlit("6");
        reveal_strlit("7");
        reveal_strlit("8");
        reveal_strlit("9");
    }
    if d == 0 { "0" } else if d == 1 { "1" } else if d == 2 { "2" } else if d == 3 { "3" }
    else if d == 4 { "4" } else if d == 5 { "5" } else if d == 6 { "6" } else if d == 7 { "7" }
    else if d == 8 { "8" } else { "9" }
}

/// Appends the decimal digits of `n`.
pub(crate) fn append_decimal(s: &mut String, n: u64)
    ensures
        final(s)@ == old(s)@ + decimal_chars(n as nat),
    decreases n,
{
    if n >= 10 {
        append_decimal(s, n / 10);
    }
    s.append(digit_str(n % 10));
    assert(old(s)@ + decimal_chars(n as nat) =~= if n >= 10 {
        old(s)@ + decimal_chars((n / 10) as nat) + seq![digit_char((n % 10) as nat)]
    } else {
        old(s)@ + seq![digit_char((n % 10) as nat)]
    });
}

/// Address of the `i`-th genesis validator.
pub open spec fn validator_address(i: nat) -> Seq<char> {
    "ionova1validator"@ + decimal_chars(i) + "qqqqqqqqqqqqqqqqqqqqqqqqqq"@
}

/// Sum of the balances in a table of accounts.
pub open spec fn balance_sum(s: Seq<(Seq<char>, Account)>) -> int
    decreases s.len(),
{
    if s.len() == 0 {
        0
    } else {
        balance_sum(s.drop_last()) + s.last().1.balance
    }
}

/// Address of the airdrop fund.
pub open spec fn airdrop_address() -> Seq<char> {
    "ionova1airdropqqqqqqqqqqqqqqqqqqqqqqqqqqqqq"@
}

/// Address of the reserved fund.
pub open spec fn reserved_address() -> Seq<char> {
    "ionova1reservedqqqqqqqqqqqqqqqqqqqqqqqqqqqqq"@
}

impl Account {
    /// An account holding `balance_ionx` whole coins, with nonce zero.
    pub open spec fn new_spec(balance_ionx: u128) -> Account {
        Account { balance: (balance_ionx * IONX_DECIMALS) as u128, nonce: 0 }
    }

    /// An account holding `balance_ionx` whole coins, with nonce zero.
    pub fn new(balance_ionx: u128) -> (r: Self)
        requires
            balance_ionx * IONX_DECIMALS <= u128::MAX,
        ensures
            r.balance == balance_ionx * IONX_DECIMALS,
            r.nonce == 0,
    {
        Account { balance: balance_ionx * IONX_DECIMALS, nonce: 0 }
    }
}

impl GenesisState {
    /// The genesis allocation: 95 238 coins to each of 21 validators, ten
    /// million to the airdrop fund and one hundred thousand reserved, in
    /// that order. The total supply is the sum of the balances.
    pub fn create() -> (r: Self)
        ensures
            r.accounts.model().len() == 23,
            forall|i: int| 0 <= i < GENESIS_VALIDATORS ==> #[trigger] r.accounts.model()[i] == (
                validator_address(i as nat), Account::new_spec(VALIDATOR_ALLOCATION)),
            r.accounts.model()[21] == (airdrop_address(), Account::new_spec(AIRDROP_ALLOCATION)),
            r.accounts.model()[22] == (reserved_address(), Account::new_spec(RESERVED_ALLOCATION)),
            forall|i: nat| i < GENESIS_VALIDATORS ==> #[trigger] lookup(r.accounts.model(), validator_address(i))
                == Some(Account::new_spec(VALIDATOR_ALLOCATION)),
            lookup(r.accounts.model(), airdrop_address()) == Some(Account::new_spec(AIRDROP_ALLOCATION)),
            lookup(r.accounts.model(), reserved_address()) == Some(Account::new_spec(RESERVED_ALLOCATION)),
            r.total_supply == balance_sum(r.accounts.model()),
            r.total_supply == (GENESIS_VALIDATORS * VALIDATOR_ALLOCATION + AIRDROP_ALLOCATION
                + RESERVED_ALLOCATION) * IONX_DECIMALS,
    {
        let mut entries: Vec<(String, Account)> = Vec::new();
        let mut total: u128 = 0;
        let mut i: u64 = 0;
        while i < GENESIS_VALIDATORS
            invariant
                i <= GENESIS_VALIDATORS,
                entries_model(entries@).len() == i,
                forall|j: int| 0 <= j < i ==> #[trigger] entries_model(entries@)[j] == (
                    validator_address(j as nat), Account::new_spec(VALIDATOR_ALLOCATION)),
                total == balance_sum(entries_model(entries@)),
                total == i * VALIDATOR_ALLOCATION * IONX_DECIMALS,
            decreases GENESIS_VALIDATORS - i,
        {
            let mut address = String::from_str("ionova1validator");
            append_decimal(&mut address, i);
            address.append("qqqqqqqqqqqqqqqqqqqqqqqqqq");
            let ghost prev = entries_model(entries@);
            let ghost key = address@;
            entries.push((address, Account::new(VALIDATOR_ALLOCATION)));
            assert(entries_model(entries@) =~= prev.push((key, Account::new_spec(VALIDATOR_ALLOCATION))));
            assert(entries_model(entries@).drop_last() =~= prev);
            total = total + VALIDATOR_ALLOCATION * IONX_DECIMALS;
            i += 1;
        }
        let airdrop = String::from_str("ionova1airdropqqqqqqqqqqqqqqqqqqqqqqqqqqqqq");
        let ghost prev = entries_model(entries@);
        entries.push((airdrop, Account::new(AIRDROP_ALLOCATION)));
        assert(entries_model(entries@) =~= prev.push((airdrop_address(), Account::new_spec(AIRDROP_ALLOCATION))));
        assert(entries_model(entries@).drop_last() =~= prev);
        assert(balance_sum(entries_model(entries@)) == balance_sum(prev) + AIRDROP_ALLOCATION * IONX_DECIMALS);
        total = total + AIRDROP_ALLOCATION * IONX_DECIMALS;
        let reserved = String::from_str("ionova1reservedqqqqqqqqqqqqqqqqqqqqqqqqqqqqq");
        let ghost prev2 = entries_model(entries@);
        entries.push((reserved, Account::new(RESERVED_ALLOCATION)));
        assert(entries_model(entries@) =~= prev2.push((reserved_address(), Account::new_spec(RESERVED_ALLOCATION))));
        assert(entries_model(entries@).drop_last() =~= prev2);
        assert(balance_sum(entries_model(entries@)) == balance_sum(prev2) + RESERVED_ALLOCATION * IONX_DECIMALS);
        total = total + RESERVED_ALLOCATION * IONX_DECIMALS;
        assert(total == balance_sum(entries_model(entries@)));
        let accounts = AddressTable { entries };
        proof {
            let m = accounts.model();
            reveal_strlit("ionova1validator");
            reveal_strlit("ionova1airdropqqqqqqqqqqqqqqqqqqqqqqqqqqqqq");
            reveal_strlit("ionova1reservedqqqqqqqqqqqqqqqqqqqqqqqqqqqqq");
            assert forall|i: nat| i < GENESIS_VALIDATORS implies #[trigger] lookup(m, validator_address(i))
                == Some(Account::new_spec(VALIDATOR_ALLOCATION)) by {
                assert(m[i as int] == (validator_address(i), Account::new_spec(VALIDATOR_ALLOCATION)));
                lemma_first_exists(m, validator_address(i), i as int);
                let j = first_index(m, validator_address(i));
                lemma_lookup_at(m, validator_address(i), j);
                assert(j <= i);
                assert(m[j] == (validator_address(j as nat), Account::new_spec(VALIDATOR_ALLOCATION)));
            }
            assert forall|j: int| 0 <= j < 21 implies #[trigger] m[j].0 != airdrop_address() && m[j].0 != reserved_address() by {
                assert(m[j].0 == validator_address(j as nat));
                assert(validator_address(j as nat)[7] == 'v');
            }
            assert(airdrop_address()[7] != reserved_address()[7]);
            assert(is_first(m, airdrop_address(), 21));
            lemma_lookup_at(m, airdrop_address(), 21);
            assert(is_first(m, reserved_address(), 22));
            lemma_lookup_at(m, reserved_address(), 22);
        }
        GenesisState { accounts, total_supply: total }
    }

    /// Total genesis supply in whole coins, rounded down.
    pub fn get_total_ionx(&self) -> (r: u128)
        ensures
            r == self.total_supply / IONX_DECIMALS,
    {
        self.total_supply / IONX_DECIMALS
    }
}

/// Credits `amount` base units to `address`, opening the account with
/// nonce zero if it does not exist.
pub fn mint_to(accounts: &mut AddressTable<Account>, address: &str, amount: u128)
    requires
        match lookup(old(accounts).model(), address@) {
            Some(a) => a.balance + amount <= u128::MAX,
            None => true,
        },
    ensures
        final(accounts).model() == put(
            old(accounts).model(),
            address@,
            match lookup(old(accounts).model(), address@) {
                Some(a) => Account { balance: (a.balance + amount) as u128, ..a },
                None => Account { balance: amount, nonce: 0 },
            },
        ),
{
    let account = match accounts.get(address) {
        Some(a) => Account { balance: a.balance + amount, ..*a },
        None => Account { balance: amount, nonce: 0 },
    };
    accounts.insert(address.to_owned(), account);
}

/// Debits `amount` base units from `address`; fails, changing nothing,
/// when the account does not exist or holds less than `amount`.
pub fn burn_from(accounts: &mut AddressTable<Account>, address: &str, amount: u128) -> (r: Result<
    (),
    BurnError,
>)
    ensures
        match lookup(old(accounts).model(), address@) {
            None => r == Err::<(), BurnError>(BurnError::AccountNotFound) && final(accounts).model()
                == old(accounts).model(),
            Some(a) => if a.balance >= amount {
                r is Ok && final(accounts).model() == put(
                    old(accounts).model(),
                    address@,
                    Account { balance: (a.balance - amount) as u128, ..a },
                )
            } else {
                r == Err::<(), BurnError>(BurnError::InsufficientBalance) && final(accounts).model()
                    == old(accounts).model()
            },
        },
{
    match accounts.get(address) {
        Some(a) => {
            if a.balance >= amount {
                let updated = Account { balance: a.balance - amount, ..*a };
                accounts.insert(address.to_owned(), updated);
                Ok(())
            } else {
                Err(BurnError::InsufficientBalance)
            }
        },
        None => Err(BurnError::AccountNotFound),
    }
}

} // verus!
