//! Balance snapshots: every account's four balance components, taken
//! once before and once after the upgrade, and what differs between the
//! two.

use vstd::prelude::*;

verus! {

/// The four components of an account's balance.
#[derive(Clone, Copy, Debug, PartialEq, Eq, Structural)]
pub struct BalanceVector {
    pub free: u128,
    pub reserved: u128,
    pub misc_frozen: u128,
    pub fee_frozen: u128,
}

/// A number too wide for 128 bits: `high * 2^128 + low`.
#[derive(Clone, Copy, Debug, PartialEq, Eq, Structural)]
pub struct Wide {
    pub high: u8,
    pub low: u128,
}

impl Wide {
    /// The number that the two parts stand for.
    pub open spec fn value(self) -> int {
        self.high * 0x1_0000_0000_0000_0000_0000_0000_0000_0000int + self.low
    }

    /// Adds a 128-bit number.
    fn plus(self, x: u128) -> (sum: Wide)
        requires
            self.high < 255,
        ensures
            sum.value() == self.value() + x,
            sum.high == self.high || sum.high == self.high + 1,
    {
        match self.low.checked_add(x) {
            Some(low) => Wide { high: self.high, low },
            None => Wide { high: self.high + 1, low: self.low - (u128::MAX - x) - 1 },
        }
    }
}

impl BalanceVector {
    /// The sum of the four components.
    pub open spec fn total(self) -> int {
        self.free + self.reserved + self.misc_frozen + self.fee_frozen
    }

    /// The sum of the four components, which may not fit 128 bits.
    pub fn wide_total(&self) -> (sum: Wide)
        ensures
            sum.value() == self.total(),
            sum.high <= 3,
    {
        let zero: Wide = Wide { high: 0, low: 0 };
        zero.plus(self.free).plus(self.reserved).plus(self.misc_frozen).plus(self.fee_frozen)
    }

    /// Whether two balances come to the same sum.
    pub fn same_total(&self, other: &BalanceVector) -> (same: bool)
        ensures
            same == (self.total() == other.total()),
    {
        let a: Wide = self.wide_total();
        let b: Wide = other.wide_total();
        a.high == b.high && a.low == b.low
    }
}

/// The lower-case character of a hexadecimal digit.
pub open spec fn hex_digit(n: int) -> char {
    if n == 0 {
        '0'
    } else if n == 1 {
        '1'
    } else if n == 2 {
        '2'
    } else if n == 3 {
        '3'
    } else if n == 4 {
        '4'
    } else if n == 5 {
        '5'
    } else if n == 6 {
        '6'
    } else if n == 7 {
        '7'
    } else if n == 8 {
        '8'
    } else if n == 9 {
        '9'
    } else if n == 10 {
        'a'
    } else if n == 11 {
        'b'
    } else if n == 12 {
        'c'
    } else if n == 13 {
        'd'
    } else if n == 14 {
        'e'
    } else {
        'f'
    }
}

/// Bytes written in hexadecimal: two lower-case digits for each byte,
/// the high half first.
pub open spec fn hex_of(bytes: Seq<u8>) -> Seq<char> {
    Seq::new(
        2 * bytes.len(),
        |i: int|
            if i % 2 == 0 {
                hex_digit(bytes[i / 2] as int / 16)
            } else {
                hex_digit(bytes[i / 2] as int % 16)
            },
    )
}

/// Calls `hex::encode` of the `hex` crate, which writes each byte as two
/// lower-case hexadecimal digits, the high half first.
#[verifier::external_body]
pub(crate) fn hex_string(bytes: &[u8]) -> (s: String)
    ensures
        s@ == hex_of(bytes@),
{
    hex::encode(bytes)
}

/// Different byte strings are written differently.
pub proof fn lemma_hex_injective(a: Seq<u8>, b: Seq<u8>)
    requires
        hex_of(a) == hex_of(b),
    ensures
        a == b,
{
    assert(hex_of(a).len() == 2 * a.len());
    assert(hex_of(b).len() == 2 * b.len());
    assert forall|i: int| 0 <= i < a.len() implies a[i] == b[i] by {
        let x = a[i] as int;
        let y = b[i] as int;
        assert(hex_of(a)[2 * i] == hex_digit(x / 16));
        assert(hex_of(b)[2 * i] == hex_digit(y / 16));
        assert(hex_of(a)[2 * i + 1] == hex_digit(x % 16));
        assert(hex_of(b)[2 * i + 1] == hex_digit(y % 16));
        assert(x / 16 == y / 16);
        assert(x % 16 == y % 16);
    }
    assert(a =~= b);
}

/// What the balance store holds for one account: the raw storage key
/// and the four components.
#[derive(Clone, Debug, PartialEq, Eq)]
pub struct AccountRecord {
    pub key: Vec<u8>,
    pub balance: BalanceVector,
}

/// One account of a snapshot, under the address it is reported by: its
/// storage key in hexadecimal.
#[derive(Clone, Debug, PartialEq, Eq)]
pub struct SnapshotEntry {
    pub address: String,
    pub balance: BalanceVector,
}

/// The balances of all accounts at one moment. Each address occurs once;
/// the entries keep the order in which the addresses were first seen.
#[derive(Clone, Debug, PartialEq, Eq)]
pub struct Snapshot {
    pub entries: Vec<SnapshotEntry>,
}

/// An address and the balance recorded for it.
pub type Row = (Seq<char>, BalanceVector);

/// No address occurs in two rows.
pub open spec fn distinct_addresses(rows: Seq<Row>) -> bool {
    forall|i: int, j: int|
        #![trigger rows[i], rows[j]]
        0 <= i < j < rows.len() ==> rows[i].0 != rows[j].0
}

/// Whether some row is for this address.
pub open spec fn has_address(rows: Seq<Row>, address: Seq<char>) -> bool {
    exists|i: int| 0 <= i < rows.len() && (#[trigger] rows[i]).0 == address
}

/// The mapping from address to balance that the rows make up, a later
/// row overriding an earlier one for the same address.
pub open spec fn balances_of(rows: Seq<Row>) -> Map<Seq<char>, BalanceVector>
    decreases rows.len(),
{
    if rows.len() == 0 {
        Map::empty()
    } else {
        balances_of(rows.drop_last()).insert(rows.last().0, rows.last().1)
    }
}

/// The rows after a balance was recorded for an address: the row of the
/// address is replaced, or a new row is added at the end.
pub open spec fn placed(rows: Seq<Row>, address: Seq<char>, balance: BalanceVector) -> Seq<Row> {
    if has_address(rows, address) {
        let i = choose|i: int| 0 <= i < rows.len() && (#[trigger] rows[i]).0 == address;
        rows.update(i, (address, balance))
    } else {
        rows.push((address, balance))
    }
}

/// The rows that a scan of the balance store leaves: each record placed
/// in turn, under its storage key in hexadecimal.
pub open spec fn recorded_rows(records: Seq<AccountRecord>) -> Seq<Row>
    decreases records.len(),
{
    if records.len() == 0 {
        Seq::empty()
    } else {
        placed(
            recorded_rows(records.drop_last()),
            hex_of(records.last().key@),
            records.last().balance,
        )
    }
}

/// The mapping that a scan of the balance store leaves: each record's
/// balance under its storage key in hexadecimal, a later record
/// overriding an earlier one for the same key.
pub open spec fn recorded(records: Seq<AccountRecord>) -> Map<Seq<char>, BalanceVector>
    decreases records.len(),
{
    if records.len() == 0 {
        Map::empty()
    } else {
        recorded(records.drop_last()).insert(hex_of(records.last().key@), records.last().balance)
    }
}

/// The balance that a mapping holds for an address, if any.
pub open spec fn lookup(balances: Map<Seq<char>, BalanceVector>, address: Seq<char>) -> Option<
    BalanceVector,
> {
    if balances.dom().contains(address) {
        Some(balances[address])
    } else {
        None
    }
}

/// Rows with distinct addresses make up the mapping that holds each row
/// and nothing else.
pub proof fn lemma_balances_of_rows(rows: Seq<Row>)
    requires
        distinct_addresses(rows),
    ensures
        forall|i: int|
            0 <= i < rows.len() ==> lookup(balances_of(rows), (#[trigger] rows[i]).0) == Some(
                rows[i].1,
            ),
        forall|a: Seq<char>|
            #![trigger balances_of(rows).dom().contains(a)]
            #![trigger has_address(rows, a)]
            balances_of(rows).dom().contains(a) <==> has_address(rows, a),
    decreases rows.len(),
{
    if rows.len() > 0 {
        let head = rows.drop_last();
        lemma_balances_of_rows(head);
        assert forall|i: int| 0 <= i < rows.len() implies lookup(
            balances_of(rows),
            (#[trigger] rows[i]).0,
        ) == Some(rows[i].1) by {
            if i < rows.len() - 1 {
                assert(head[i] == rows[i]);
                assert(rows[i].0 != rows[rows.len() - 1].0);
            }
        }
        assert forall|a: Seq<char>| balances_of(rows).dom().contains(a) <==> has_address(
            rows,
            a,
        ) by {
            if has_address(rows, a) {
                let i = choose|i: int| 0 <= i < rows.len() && (#[trigger] rows[i]).0 == a;
                if i < rows.len() - 1 {
                    assert(head[i].0 == a);
                }
            }
            if has_address(head, a) {
                let i = choose|i: int| 0 <= i < head.len() && (#[trigger] head[i]).0 == a;
                assert(rows[i].0 == a);
            }
            if a == rows.last().0 {
                assert(rows[rows.len() - 1].0 == a);
            }
        }
    }
}

/// Recording a balance keeps the addresses distinct and changes the
/// mapping at that address alone.
pub proof fn lemma_placed(rows: Seq<Row>, address: Seq<char>, balance: BalanceVector)
    requires
        distinct_addresses(rows),
    ensures
        distinct_addresses(placed(rows, address, balance)),
        balances_of(placed(rows, address, balance)) == balances_of(rows).insert(address, balance),
{
    let after = placed(rows, address, balance);
    if has_address(rows, address) {
        let i = choose|i: int| 0 <= i < rows.len() && (#[trigger] rows[i]).0 == address;
        assert forall|p: int, q: int| 0 <= p < q < after.len() implies after[p].0
            != after[q].0 by {
            assert(rows[p].0 != rows[q].0);
        }
        lemma_balances_of_rows(rows);
        lemma_balances_of_rows(after);
        let want = balances_of(rows).insert(address, balance);
        assert forall|a: Seq<char>| balances_of(after).dom().contains(a) <==> want.dom().contains(
            a,
        ) by {
            if has_address(after, a) {
                let k = choose|k: int| 0 <= k < after.len() && (#[trigger] after[k]).0 == a;
                assert(rows[k].0 == a);
            }
            if has_address(rows, a) {
                let k = choose|k: int| 0 <= k < rows.len() && (#[trigger] rows[k]).0 == a;
                assert(after[k].0 == a);
            }
            if a == address {
                assert(after[i].0 == a);
            }
        }
        assert forall|a: Seq<char>| balances_of(after).dom().contains(a) implies balances_of(
            after,
        )[a] == want[a] by {
            let k = choose|k: int| 0 <= k < after.len() && (#[trigger] after[k]).0 == a;
            assert(lookup(balances_of(after), after[k].0) == Some(after[k].1));
            if k == i {
            } else {
                assert(rows[k] == after[k]);
                assert(lookup(balances_of(rows), rows[k].0) == Some(rows[k].1));
                if k < i {
                    assert(rows[k].0 != rows[i].0);
                } else {
                    assert(rows[i].0 != rows[k].0);
                }
            }
        }
        assert(balances_of(after) =~= want);
    } else {
        assert forall|p: int, q: int| 0 <= p < q < after.len() implies after[p].0
            != after[q].0 by {
            if q < rows.len() {
                assert(rows[p].0 != rows[q].0);
            } else {
                assert(rows[p].0 != address);
            }
        }
        assert(after.drop_last() =~= rows);
    }
}

/// A scan leaves rows with distinct addresses, which make up the
/// mapping of the scan.
pub proof fn lemma_recorded_rows_distinct(records: Seq<AccountRecord>)
    ensures
        distinct_addresses(recorded_rows(records)),
        balances_of(recorded_rows(records)) == recorded(records),
    decreases records.len(),
{
    if records.len() > 0 {
        lemma_recorded_rows_distinct(records.drop_last());
        lemma_placed(
            recorded_rows(records.drop_last()),
            hex_of(records.last().key@),
            records.last().balance,
        );
    }
}

impl Snapshot {
    /// The rows of the snapshot, in order.
    pub open spec fn rows(&self) -> Seq<Row> {
        self.entries@.map_values(|e: SnapshotEntry| (e.address@, e.balance))
    }

    /// No address occurs twice.
    pub open spec fn wf(&self) -> bool {
        distinct_addresses(self.rows())
    }

    /// A snapshot of an empty store.
    pub fn new() -> (snapshot: Snapshot)
        ensures
            snapshot.wf(),
            snapshot.rows() == Seq::<Row>::empty(),
            snapshot@ == Map::<Seq<char>, BalanceVector>::empty(),
    {
        let snapshot: Snapshot = Snapshot { entries: Vec::new() };
        snapshot
    }

    /// Where the entry of an address stands, if it has one.
    fn position(&self, address: &String) -> (r: Option<usize>)
        ensures
            match r {
                Some(i) => i < self.entries.len() && self.rows()[i as int].0 == address@,
                None => !has_address(self.rows(), address@),
            },
    {
        let mut i: usize = 0;
        while i < self.entries.len()
            invariant
                i <= self.entries.len(),
                forall|k: int| 0 <= k < i ==> (#[trigger] self.rows()[k]).0 != address@,
            decreases self.entries.len() - i,
        {
            if self.entries[i].address == *address {
                return Some(i);
            }
            i += 1;
        }
        None
    }

    /// The balance recorded for an address, if any.
    pub fn get(&self, address: &String) -> (r: Option<BalanceVector>)
        requires
            self.wf(),
        ensures
            r == lookup(self@, address@),
    {
        proof {
            lemma_balances_of_rows(self.rows());
        }
        match self.position(address) {
            Some(i) => {
                Some(self.entries[i].balance)
            },
            None => None,
        }
    }

    /// Records the balance of an address, in place of what was recorded
    /// for it before.
    pub fn record(&mut self, address: String, balance: BalanceVector)
        requires
            old(self).wf(),
        ensures
            final(self).wf(),
            final(self).rows() == placed(old(self).rows(), address@, balance),
            final(self)@ == old(self)@.insert(address@, balance),
    {
        let ghost before = self.rows();
        proof {
            lemma_placed(before, address@, balance);
        }
        match self.position(&address) {
            Some(i) => {
                proof {
                    let k = choose|k: int|
                        0 <= k < before.len() && (#[trigger] before[k]).0 == address@;
                    if k < i {
                        assert(before[k].0 != before[i as int].0);
                    } else if i < k {
                        assert(before[i as int].0 != before[k].0);
                    }
                }
                self.entries[i] = SnapshotEntry { address, balance };
                assert(self.rows() =~= before.update(i as int, (address@, balance)));
            },
            None => {
                self.entries.push(SnapshotEntry { address, balance });
                assert(self.rows() =~= before.push((address@, balance)));
            },
        }
    }
}

impl View for Snapshot {
    type V = Map<Seq<char>, BalanceVector>;

    open spec fn view(&self) -> Map<Seq<char>, BalanceVector> {
        balances_of(self.rows())
    }
}

/// Gathers the scanned records of the balance store into one snapshot,
/// each account under its storage key in hexadecimal. An empty store
/// gives an empty snapshot.
pub fn dump_balances(records: &Vec<AccountRecord>) -> (snapshot: Snapshot)
    ensures
        snapshot.wf(),
        snapshot.rows() == recorded_rows(records@),
        snapshot@ == recorded(records@),
{
    let mut snapshot: Snapshot = Snapshot::new();
    let mut i: usize = 0;
    while i < records.len()
        invariant
            i <= records.len(),
            snapshot.wf(),
            snapshot.rows() == recorded_rows(records@.take(i as int)),
        decreases records.len() - i,
    {
        let address: String = hex_string(records[i].key.as_slice());
        snapshot.record(address, records[i].balance);
        assert(records@.take(i + 1).drop_last() =~= records@.take(i as int));
        i += 1;
    }
    proof {
        assert(records@.take(records.len() as int) =~= records@);
        lemma_recorded_rows_distinct(records@);
    }
    snapshot
}

/// What the comparison of two snapshots reports.
#[derive(Clone, Debug, PartialEq, Eq)]
pub enum Discrepancy {
    /// The account is in both snapshots and its components sum up
    /// differently.
    Mismatch { address: String, before: BalanceVector, after: BalanceVector },
    /// The account is in the later snapshot only.
    Created { address: String, balance: BalanceVector },
}

/// What a [`Discrepancy`] holds, with a sequence in place of the string.
pub enum DiscrepancyView {
    Mismatch { address: Seq<char>, before: BalanceVector, after: BalanceVector },
    Created { address: Seq<char>, balance: BalanceVector },
}

impl DiscrepancyView {
    /// The address that the report is about.
    pub open spec fn about(self) -> Seq<char> {
        match self {
            DiscrepancyView::Mismatch { address, .. } => address,
            DiscrepancyView::Created { address, .. } => address,
        }
    }
}

impl View for Discrepancy {
    type V = DiscrepancyView;

    open spec fn view(&self) -> DiscrepancyView {
        match *self {
            Discrepancy::Mismatch { address, before, after } => DiscrepancyView::Mismatch {
                address: address@,
                before,
                after,
            },
            Discrepancy::Created { address, balance } => DiscrepancyView::Created {
                address: address@,
                balance,
            },
        }
    }
}

/// The views of the reports, in order.
pub open spec fn reports(found: Seq<Discrepancy>) -> Seq<DiscrepancyView> {
    found.map_values(|d: Discrepancy| d@)
}

/// What is reported of one account of the later snapshot: that it is
/// new, that its sum has changed, or nothing.
pub open spec fn finding(
    before: Map<Seq<char>, BalanceVector>,
    address: Seq<char>,
    balance: BalanceVector,
) -> Option<DiscrepancyView> {
    if !before.dom().contains(address) {
        Some(DiscrepancyView::Created { address, balance })
    } else if before[address].total() != balance.total() {
        Some(DiscrepancyView::Mismatch { address, before: before[address], after: balance })
    } else {
        None
    }
}

/// What is reported of the rows of the later snapshot, in their order.
pub open spec fn findings(before: Map<Seq<char>, BalanceVector>, rows: Seq<Row>) -> Seq<
    DiscrepancyView,
>
    decreases rows.len(),
{
    if rows.len() == 0 {
        Seq::empty()
    } else {
        let rest = findings(before, rows.drop_last());
        match finding(before, rows.last().0, rows.last().1) {
            Some(d) => rest.push(d),
            None => rest,
        }
    }
}

/// Every report is about an address of the later snapshot, and says
/// what [`finding`] says of one of its rows.
pub proof fn lemma_findings_sound(before: Map<Seq<char>, BalanceVector>, rows: Seq<Row>)
    ensures
        forall|k: int|
            0 <= k < findings(before, rows).len() ==> exists|i: int|
                0 <= i < rows.len() && finding(before, (#[trigger] rows[i]).0, rows[i].1) == Some(
                    #[trigger] findings(before, rows)[k],
                ),
    decreases rows.len(),
{
    if rows.len() > 0 {
        let head = rows.drop_last();
        lemma_findings_sound(before, head);
        let all = findings(before, rows);
        assert forall|k: int| 0 <= k < all.len() implies exists|i: int|
            0 <= i < rows.len() && finding(before, (#[trigger] rows[i]).0, rows[i].1) == Some(
                #[trigger] all[k],
            ) by {
            if k < findings(before, head).len() {
                assert(all[k] == findings(before, head)[k]);
                let i = choose|i: int|
                    0 <= i < head.len() && finding(before, (#[trigger] head[i]).0, head[i].1)
                        == Some(findings(before, head)[k]);
                assert(rows[i] == head[i]);
            } else {
                let i = rows.len() - 1;
                assert(finding(before, rows[i].0, rows[i].1) == Some(all[k]));
            }
        }
    }
}

/// Whatever [`finding`] says of a row of the later snapshot is among the
/// reports.
pub proof fn lemma_findings_complete(before: Map<Seq<char>, BalanceVector>, rows: Seq<Row>, i: int)
    requires
        0 <= i < rows.len(),
        finding(before, rows[i].0, rows[i].1) is Some,
    ensures
        findings(before, rows).contains(finding(before, rows[i].0, rows[i].1)->Some_0),
    decreases rows.len(),
{
    let head = rows.drop_last();
    let rest = findings(before, head);
    let all = findings(before, rows);
    let wanted = finding(before, rows[i].0, rows[i].1)->Some_0;
    if i < rows.len() - 1 {
        lemma_findings_complete(before, head, i);
        let k = choose|k: int| 0 <= k < rest.len() && rest[k] == wanted;
        assert(all[k] == wanted);
    } else {
        assert(all[all.len() - 1] == wanted);
    }
}

/// An account whose four components are the same in both snapshots is
/// left out of the reports.
pub proof fn lemma_unchanged_account_omitted(
    before: Map<Seq<char>, BalanceVector>,
    rows: Seq<Row>,
    address: Seq<char>,
)
    requires
        distinct_addresses(rows),
        before.dom().contains(address),
        balances_of(rows).dom().contains(address),
        before[address] == balances_of(rows)[address],
    ensures
        forall|k: int|
            0 <= k < findings(before, rows).len() ==> (#[trigger] findings(before, rows)[k]).about()
                != address,
{
    lemma_findings_sound(before, rows);
    lemma_balances_of_rows(rows);
    let all = findings(before, rows);
    assert forall|k: int| 0 <= k < all.len() implies (#[trigger] all[k]).about() != address by {
        let i = choose|i: int|
            0 <= i < rows.len() && finding(before, (#[trigger] rows[i]).0, rows[i].1) == Some(
                all[k],
            );
        if rows[i].0 == address {
            assert(lookup(balances_of(rows), rows[i].0) == Some(rows[i].1));
        }
    }
}

/// Compares two snapshots. Every account of the later one is looked up
/// in the earlier: one that is missing there is reported as created, one
/// whose components sum up differently as a mismatch with both
/// breakdowns, and any other is passed over. Accounts of the earlier
/// snapshot alone are not reported.
pub fn reconcile(before: &Snapshot, after: &Snapshot) -> (found: Vec<Discrepancy>)
    requires
        before.wf(),
    ensures
        reports(found@) == findings(before@, after.rows()),
{
    let mut found: Vec<Discrepancy> = Vec::new();
    let mut i: usize = 0;
    while i < after.entries.len()
        invariant
            i <= after.entries.len(),
            before.wf(),
            reports(found@) == findings(before@, after.rows().take(i as int)),
        decreases after.entries.len() - i,
    {
        let entry: &SnapshotEntry = &after.entries[i];
        let ghost earlier = reports(found@);
        proof {
            assert(after.rows().take(i + 1).drop_last() =~= after.rows().take(i as int));
            assert(after.rows().take(i + 1).last() == (entry.address@, entry.balance));
        }
        match before.get(&entry.address) {
            Some(old_balance) => {
                if !old_balance.same_total(&entry.balance) {
                    found.push(
                        Discrepancy::Mismatch {
                            address: entry.address.clone(),
                            before: old_balance,
                            after: entry.balance,
                        },
                    );
                    assert(reports(found@) =~= earlier.push(
                        DiscrepancyView::Mismatch {
                            address: entry.address@,
                            before: old_balance,
                            after: entry.balance,
                        },
                    ));
                }
            },
            None => {
                found.push(
                    Discrepancy::Created { address: entry.address.clone(), balance: entry.balance },
                );
                assert(reports(found@) =~= earlier.push(
                    DiscrepancyView::Created { address: entry.address@, balance: entry.balance },
                ));
            },
        }
        i += 1;
    }
    assert(after.rows().take(after.entries.len() as int) =~= after.rows());
    found
}

} // verus!
