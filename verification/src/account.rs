//! The test population: how its identities are derived from the sponsor's
//! secret and how an address is matched back to its account.

use vstd::prelude::*;
use vstd::string::*;
use subxt::ext::sp_core::{sr25519, Pair};
use crate::address::AccountAddress;
use crate::error::{Violation, WorkflowError};

verus! {

/// One member of the test population. The identity is the secret URI that
/// the signing key is derived from.
#[derive(Clone, Debug, PartialEq, Eq)]
pub struct TestAccount {
    pub index: u32,
    pub identity: String,
    pub address: AccountAddress,
}

/// The addresses of a population, in order.
pub open spec fn addresses_of(accounts: Seq<TestAccount>) -> Seq<AccountAddress> {
    accounts.map_values(|a: TestAccount| a.address)
}

/// The character that stands for a decimal digit.
pub open spec fn digit_char(d: int) -> char {
    if d == 0 {
        '0'
    } else if d == 1 {
        '1'
    } else if d == 2 {
        '2'
    } else if d == 3 {
        '3'
    } else if d == 4 {
        '4'
    } else if d == 5 {
        '5'
    } else if d == 6 {
        '6'
    } else if d == 7 {
        '7'
    } else if d == 8 {
        '8'
    } else {
        '9'
    }
}

/// A number in decimal, most significant digit first, without leading
/// zeros.
pub open spec fn decimal(n: nat) -> Seq<char>
    decreases n,
{
    if n < 10 {
        seq![digit_char(n as int)]
    } else {
        decimal(n / 10).push(digit_char((n % 10) as int))
    }
}

/// What stands between the sponsor's secret and an account's index: a
/// hard derivation junction.
pub open spec fn junction() -> Seq<char> {
    seq!['/', '/']
}

/// The secret URI of the test account at `index`.
pub open spec fn account_seed_of(sponsor_seed: Seq<char>, index: nat) -> Seq<char> {
    sponsor_seed + junction() + decimal(index)
}

/// The public key of the sr25519 pair that a secret URI stands for, if
/// the URI is accepted.
pub uninterp spec fn sr25519_public_key(uri: Seq<char>) -> Option<Seq<u8>>;

/// A key as a sequence of bytes.
pub open spec fn key_bytes(key: Option<[u8; 32]>) -> Option<Seq<u8>> {
    match key {
        Some(k) => Some(k@),
        None => None,
    }
}

/// Calls `sr25519::Pair::from_string` of sp-core on the URI, without a
/// password override, and takes the public key of the pair. Whether the
/// URI is accepted and which key comes out depend on the URI alone; both
/// are named by [`sr25519_public_key`] and nothing more is claimed.
#[verifier::external_body]
pub(crate) fn public_key_of(uri: &str) -> (key: Option<[u8; 32]>)
    ensures
        key_bytes(key) == sr25519_public_key(uri@),
{
    match sr25519::Pair::from_string(uri, None) {
        Ok(pair) => Some(pair.public().0),
        Err(_) => None,
    }
}

/// A decimal number has at least one digit.
pub proof fn lemma_decimal_nonempty(n: nat)
    ensures
        decimal(n).len() >= 1,
        n >= 10 ==> decimal(n).len() >= 2,
    decreases n,
{
    if n >= 10 {
        lemma_decimal_nonempty(n / 10);
    }
}

/// Different numbers are written differently.
pub proof fn lemma_decimal_injective(a: nat, b: nat)
    requires
        decimal(a) == decimal(b),
    ensures
        a == b,
    decreases a,
{
    lemma_decimal_nonempty(a);
    lemma_decimal_nonempty(b);
    if a < 10 && b < 10 {
        assert(decimal(a)[0] == digit_char(a as int));
        assert(decimal(b)[0] == digit_char(b as int));
    } else if a >= 10 && b >= 10 {
        let x = decimal(a / 10);
        let y = decimal(b / 10);
        assert(decimal(a).last() == digit_char((a % 10) as int));
        assert(decimal(b).last() == digit_char((b % 10) as int));
        assert(x =~= decimal(a).drop_last());
        assert(y =~= decimal(b).drop_last());
        lemma_decimal_injective(a / 10, b / 10);
    } else if a < 10 {
        assert(decimal(a).len() == 1);
    } else {
        assert(decimal(b).len() == 1);
    }
}

/// No two indices share a secret URI.
pub proof fn lemma_account_seed_injective(sponsor_seed: Seq<char>, i: nat, j: nat)
    requires
        account_seed_of(sponsor_seed, i) == account_seed_of(sponsor_seed, j),
    ensures
        i == j,
{
    let head = sponsor_seed + junction();
    let a = account_seed_of(sponsor_seed, i);
    let b = account_seed_of(sponsor_seed, j);
    assert(decimal(i) =~= a.subrange(head.len() as int, a.len() as int));
    assert(decimal(j) =~= b.subrange(head.len() as int, b.len() as int));
    lemma_decimal_injective(i, j);
}

/// The one-character string of a decimal digit.
fn digit_str(d: u32) -> (s: &'static str)
    requires
        d < 10,
    ensures
        s@ == seq![digit_char(d as int)],
{
    proof {
        reveal_strlit("0");
        reveal_strlit("1");
        reveal_strlit("2");
        reveal_strlit("3");
        reveal_strlit("4");
        reveal_strlit("5");
        reveal_strlit("6");
        reveal_strlit("7");
        reveal_strlit("8");
        reveal_strlit("9");
    }
    let s: &'static str = if d == 0 {
        "0"
    } else if d == 1 {
        "1"
    } else if d == 2 {
        "2"
    } else if d == 3 {
        "3"
    } else if d == 4 {
        "4"
    } else if d == 5 {
        "5"
    } else if d == 6 {
        "6"
    } else if d == 7 {
        "7"
    } else if d == 8 {
        "8"
    } else {
        "9"
    };
    s
}

/// Writes a number in decimal.
pub fn render_decimal(n: u32) -> (s: String)
    ensures
        s@ == decimal(n as nat),
    decreases n,
{
    if n < 10 {
        String::from_str(digit_str(n))
    } else {
        let mut s: String = render_decimal(n / 10);
        s.append(digit_str(n % 10));
        s
    }
}

/// The secret URI of the test account at `index`: the sponsor's secret,
/// a hard junction, and the index in decimal.
pub fn account_seed(sponsor_seed: &str, index: u32) -> (uri: String)
    ensures
        uri@ == account_seed_of(sponsor_seed@, index as nat),
{
    proof {
        reveal_strlit("//");
    }
    let mut uri: String = String::from_str(sponsor_seed);
    uri.append("//");
    let number: String = render_decimal(index);
    uri.append(number.as_str());
    uri
}

/// Derives the address that a secret URI stands for.
pub fn derive_identity(uri: &str) -> (r: Result<AccountAddress, WorkflowError>)
    ensures
        match r {
            Ok(address) => sr25519_public_key(uri@) == Some(address@),
            Err(e) => e == seed_rejected() && sr25519_public_key(uri@) is None,
        },
{
    match public_key_of(uri) {
        Some(bytes) => Ok(AccountAddress { bytes }),
        None => Err(WorkflowError::InvariantViolation(Violation::SeedRejected)),
    }
}

/// The account at `index` of a population derived from `sponsor_seed` is
/// what the derivation gives for that index.
pub open spec fn derived_from(account: TestAccount, sponsor_seed: Seq<char>, index: int) -> bool {
    &&& account.index == index
    &&& account.identity@ == account_seed_of(sponsor_seed, index as nat)
    &&& sr25519_public_key(account.identity@) == Some(account.address@)
}

/// The population is what the derivation gives for `count` accounts.
pub open spec fn derived_population(accounts: Seq<TestAccount>, sponsor_seed: Seq<char>, count: int) -> bool {
    &&& accounts.len() == count
    &&& forall|i: int| 0 <= i < count ==> derived_from(#[trigger] accounts[i], sponsor_seed, i)
}

/// The derivation is deterministic: two populations derived from one
/// secret agree, account by account, as far as both reach. And it keeps
/// the indices apart as far as the secret URIs go: no two accounts of a
/// population share one.
pub proof fn lemma_derivation_deterministic(
    one: Seq<TestAccount>,
    other: Seq<TestAccount>,
    sponsor_seed: Seq<char>,
)
    requires
        derived_population(one, sponsor_seed, one.len() as int),
        derived_population(other, sponsor_seed, other.len() as int),
    ensures
        forall|i: int|
            #![trigger one[i], other[i]]
            0 <= i < one.len() && i < other.len() ==> one[i].index == other[i].index
                && one[i].identity@ == other[i].identity@ && one[i].address == other[i].address,
        forall|i: int, j: int|
            #![trigger one[i], one[j]]
            0 <= i < one.len() && 0 <= j < one.len() && i != j ==> one[i].identity@
                != one[j].identity@,
{
    assert forall|i: int|
        #![trigger one[i], other[i]]
        0 <= i < one.len() && i < other.len() implies one[i].index == other[i].index
        && one[i].identity@ == other[i].identity@ && one[i].address == other[i].address by {
        assert(derived_from(one[i], sponsor_seed, i));
        assert(derived_from(other[i], sponsor_seed, i));
        assert(one[i].address@ == other[i].address@);
        assert(one[i].address.bytes =~= other[i].address.bytes);
    }
    assert forall|i: int, j: int|
        #![trigger one[i], one[j]]
        0 <= i < one.len() && 0 <= j < one.len() && i != j implies one[i].identity@
        != one[j].identity@ by {
        assert(derived_from(one[i], sponsor_seed, i));
        assert(derived_from(one[j], sponsor_seed, j));
        if one[i].identity@ == one[j].identity@ {
            lemma_account_seed_injective(sponsor_seed, i as nat, j as nat);
        }
    }
}

/// The failure reported when a secret URI is refused.
pub open spec fn seed_rejected() -> WorkflowError {
    WorkflowError::InvariantViolation(Violation::SeedRejected)
}

/// The failure reported when two accounts come out with one address.
pub open spec fn address_collision() -> WorkflowError {
    WorkflowError::InvariantViolation(Violation::AddressCollision)
}

/// The key that the derivation gives for the account at `index`.
pub open spec fn derived_key(sponsor_seed: Seq<char>, index: int) -> Option<Seq<u8>> {
    sr25519_public_key(account_seed_of(sponsor_seed, index as nat))
}

/// Some secret URI among the first `count` is refused.
pub open spec fn some_refused(sponsor_seed: Seq<char>, count: int) -> bool {
    exists|i: int| 0 <= i < count && (#[trigger] derived_key(sponsor_seed, i)) is None
}

/// Two of the first `count` indices come out with one key.
pub open spec fn some_collide(sponsor_seed: Seq<char>, count: int) -> bool {
    exists|i: int, j: int|
        0 <= i < j < count && #[trigger] derived_key(sponsor_seed, i) == #[trigger] derived_key(
            sponsor_seed,
            j,
        )
}

/// Tests whether no address occurs twice.
pub fn addresses_distinct(addresses: &Vec<AccountAddress>) -> (distinct: bool)
    ensures
        distinct == addresses@.no_duplicates(),
{
    let mut j: usize = 0;
    while j < addresses.len()
        invariant
            j <= addresses.len(),
            forall|a: int, b: int| 0 <= a < b < j ==> addresses[a] != addresses[b],
        decreases addresses.len() - j,
    {
        let mut i: usize = 0;
        while i < j
            invariant
                i <= j,
                j < addresses.len(),
                forall|a: int| 0 <= a < i ==> addresses[a] != addresses[j as int],
            decreases j - i,
        {
            if addresses[i].same(&addresses[j]) {
                return false;
            }
            i += 1;
        }
        j += 1;
    }
    assert forall|a: int, b: int|
        0 <= a < addresses.len() && 0 <= b < addresses.len() && a != b implies addresses[a]
        != addresses[b] by {
        if a < b {
            assert(addresses[a] != addresses[b]);
        } else {
            assert(addresses[b] != addresses[a]);
        }
    }
    true
}

/// The account at `index` of a population made for `sponsor_seed` has
/// that index, and the secret URI of that index as its identity.
pub open spec fn enrolled(account: TestAccount, sponsor_seed: Seq<char>, index: int) -> bool {
    &&& account.index == index
    &&& account.identity@ == account_seed_of(sponsor_seed, index as nat)
}

/// Makes the test population of given addresses, the address at `i` for
/// the account at index `i`. Fails if two indices share an address.
pub fn enroll(sponsor_seed: &str, addresses: &Vec<AccountAddress>) -> (r: Result<
    Vec<TestAccount>,
    WorkflowError,
>)
    requires
        addresses.len() <= u32::MAX,
    ensures
        match r {
            Ok(accounts) => {
                &&& addresses@.no_duplicates()
                &&& addresses_of(accounts@) == addresses@
                &&& forall|i: int|
                    0 <= i < accounts.len() ==> enrolled(#[trigger] accounts[i], sponsor_seed@, i)
            },
            Err(e) => e == address_collision() && !addresses@.no_duplicates(),
        },
{
    if !addresses_distinct(addresses) {
        return Err(WorkflowError::InvariantViolation(Violation::AddressCollision));
    }
    let mut accounts: Vec<TestAccount> = Vec::new();
    let mut i: usize = 0;
    while i < addresses.len()
        invariant
            i <= addresses.len(),
            addresses.len() <= u32::MAX,
            accounts.len() == i,
            addresses_of(accounts@) == addresses@.take(i as int),
            forall|k: int| 0 <= k < i ==> enrolled(#[trigger] accounts[k], sponsor_seed@, k),
        decreases addresses.len() - i,
    {
        let index: u32 = i as u32;
        let identity: String = account_seed(sponsor_seed, index);
        accounts.push(TestAccount { index, identity, address: addresses[i] });
        i += 1;
    }
    Ok(accounts)
}

/// Derives the test population: `count` accounts, the one at index `i`
/// from the sponsor's secret and `i`. The same secret and count always
/// give the same population, and no two accounts of it share an address.
/// Fails if a secret URI is refused, or else if two indices collide on
/// one address.
pub fn derive_accounts(sponsor_seed: &str, count: u32) -> (r: Result<Vec<TestAccount>, WorkflowError>)
    ensures
        match r {
            Ok(accounts) => {
                &&& derived_population(accounts@, sponsor_seed@, count as int)
                &&& addresses_of(accounts@).no_duplicates()
            },
            Err(e) => if some_refused(sponsor_seed@, count as int) {
                e == seed_rejected()
            } else {
                e == address_collision() && some_collide(sponsor_seed@, count as int)
            },
        },
        r is Ok ==> !some_refused(sponsor_seed@, count as int) && !some_collide(
            sponsor_seed@,
            count as int,
        ),
{
    let mut addresses: Vec<AccountAddress> = Vec::new();
    let mut i: u32 = 0;
    while i < count
        invariant
            i <= count,
            addresses.len() == i,
            forall|k: int|
                0 <= k < i ==> #[trigger] derived_key(sponsor_seed@, k) == Some(addresses[k]@),
        decreases count - i,
    {
        let uri: String = account_seed(sponsor_seed, i);
        match derive_identity(uri.as_str()) {
            Ok(address) => {
                addresses.push(address);
            },
            Err(e) => {
                assert(derived_key(sponsor_seed@, i as int) is None);
                return Err(e);
            },
        }
        i += 1;
    }
    let r = enroll(sponsor_seed, &addresses);
    proof {
        match &r {
            Ok(accounts) => {
                assert forall|k: int| 0 <= k < count implies derived_from(
                    #[trigger] accounts[k],
                    sponsor_seed@,
                    k,
                ) by {
                    assert(enrolled(accounts[k], sponsor_seed@, k));
                    assert(addresses_of(accounts@)[k] == addresses[k]);
                    assert(derived_key(sponsor_seed@, k) == Some(addresses[k]@));
                }
                if some_collide(sponsor_seed@, count as int) {
                    let (a, b) = choose|a: int, b: int|
                        0 <= a < b < count && #[trigger] derived_key(sponsor_seed@, a)
                            == #[trigger] derived_key(sponsor_seed@, b);
                    assert(addresses[a]@ == addresses[b]@);
                    assert(addresses[a].bytes =~= addresses[b].bytes);
                }
            },
            Err(_) => {
                let (a, b) = choose|a: int, b: int|
                    0 <= a < addresses.len() && 0 <= b < addresses.len() && a != b && addresses[a]
                        == addresses[b];
                if a < b {
                    assert(derived_key(sponsor_seed@, a) == derived_key(sponsor_seed@, b));
                } else {
                    assert(derived_key(sponsor_seed@, b) == derived_key(sponsor_seed@, a));
                }
            },
        }
    }
    r
}

/// In a population without shared addresses, every account is found by
/// its own address.
pub proof fn lemma_account_found_by_its_address(accounts: Seq<TestAccount>, index: int)
    requires
        addresses_of(accounts).no_duplicates(),
        0 <= index < accounts.len(),
    ensures
        addresses_of(accounts).index_of_first(accounts[index].address) == Some(index),
{
    let addresses = addresses_of(accounts);
    addresses.index_of_first_ensures(accounts[index].address);
    assert(addresses[index] == accounts[index].address);
}

/// Finds the test account that owns an address: the first one, in the
/// order of the population, whose address it is.
pub fn find_account(accounts: &[TestAccount], who: &AccountAddress) -> (r: Option<usize>)
    ensures
        match r {
            Some(i) => addresses_of(accounts@).index_of_first(*who) == Some(i as int),
            None => addresses_of(accounts@).index_of_first(*who) is None,
        },
{
    let ghost addresses = addresses_of(accounts@);
    let mut i: usize = 0;
    while i < accounts.len()
        invariant
            i <= accounts.len(),
            addresses == addresses_of(accounts@),
            forall|j: int| 0 <= j < i ==> addresses[j] != *who,
        decreases accounts.len() - i,
    {
        if accounts[i].address.same(who) {
            proof {
                assert(addresses[i as int] == *who);
                addresses.index_of_first_ensures(*who);
            }
            return Some(i);
        }
        i += 1;
    }
    proof {
        addresses.index_of_first_ensures(*who);
    }
    None
}

} // verus!
