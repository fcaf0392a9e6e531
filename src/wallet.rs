//! Wallets: the storage row, the presentation view with its aggregates, and
//! the wallet repository.
use crate::ids::{parse_uuid, random_uuid, uuid_parsed, uuid_string, uuid_text};
use crate::miner::{is_miner_view, Miner, MinerDAO};
use vstd::prelude::*;

verus! {

/// A failure of the underlying store, as reported to the repository.
#[derive(Debug, Clone, Copy, PartialEq, Eq)]
pub struct StorageFault;

/// Why a creation did not succeed.
#[derive(Debug, Clone, Copy, PartialEq, Eq)]
pub enum CreateError {
    /// The wallet that was to own the new row does not exist.
    NotFound,
    /// The store failed.
    Storage,
}

/// A wallet row as stored: its address is a UUID held by its 128-bit value.
#[derive(Debug, Clone)]
pub struct WalletDao {
    pub address: u128,
    pub club_name: String,
}

/// The first row of `ws` at address `a`, if any.
pub open spec fn find_wallet(ws: Seq<WalletDao>, a: u128) -> Option<WalletDao>
    decreases ws.len(),
{
    if ws.len() == 0 {
        None
    } else if ws[0].address == a {
        Some(ws[0])
    } else {
        find_wallet(ws.subrange(1, ws.len() as int), a)
    }
}


/// A wallet as presented to callers: its row, its miners, and aggregates
/// recomputed from those miners.
#[derive(Debug, Clone)]
pub struct Wallet {
    pub address: String,
    pub club_name: String,
    pub total_hash_rate: i32,
    pub total_shares_mined: i32,
    pub total_workers_online: i32,
    pub workers_online: Vec<Miner>,
}

/// What a caller supplies to create a wallet.
#[derive(Debug, Clone)]
pub struct WalletRequest {
    pub club_name: String,
}

/// Sum of the hash rates of the presented miners.
pub open spec fn hash_total(vs: Seq<Miner>) -> int
    decreases vs.len(),
{
    if vs.len() == 0 {
        0
    } else {
        hash_total(vs.drop_last()) + vs.last().hash_rate
    }
}

/// Sum of the shares mined by the presented miners.
pub open spec fn shares_total(vs: Seq<Miner>) -> int
    decreases vs.len(),
{
    if vs.len() == 0 {
        0
    } else {
        shares_total(vs.drop_last()) + vs.last().shares_mined
    }
}

/// Sum of the hash rates of the miner rows.
pub open spec fn rows_hash_total(ms: Seq<MinerDAO>) -> int
    decreases ms.len(),
{
    if ms.len() == 0 {
        0
    } else {
        rows_hash_total(ms.drop_last()) + ms.last().hash_rate
    }
}

/// Sum of the shares mined by the miner rows.
pub open spec fn rows_shares_total(ms: Seq<MinerDAO>) -> int
    decreases ms.len(),
{
    if ms.len() == 0 {
        0
    } else {
        rows_shares_total(ms.drop_last()) + ms.last().shares_mined
    }
}

/// Presented miners whose telemetry is non-negative and whose aggregates fit a wallet view.
pub open spec fn views_fit(vs: Seq<Miner>) -> bool {
    &&& forall|k: int| 0 <= k < vs.len() ==> 0 <= #[trigger] vs[k].hash_rate
    &&& forall|k: int| 0 <= k < vs.len() ==> 0 <= #[trigger] vs[k].shares_mined
    &&& hash_total(vs) <= i32::MAX
    &&& shares_total(vs) <= i32::MAX
    &&& vs.len() <= i32::MAX
}

/// Miner rows whose telemetry is non-negative and whose aggregates fit a wallet view.
pub open spec fn rows_fit(ms: Seq<MinerDAO>) -> bool {
    &&& forall|k: int| 0 <= k < ms.len() ==> 0 <= #[trigger] ms[k].hash_rate
    &&& forall|k: int| 0 <= k < ms.len() ==> 0 <= #[trigger] ms[k].shares_mined
    &&& rows_hash_total(ms) <= i32::MAX
    &&& rows_shares_total(ms) <= i32::MAX
    &&& ms.len() <= i32::MAX
}

/// The miner rows of `ms` that belong to the wallet at `a`, in order.
pub open spec fn owned_by(ms: Seq<MinerDAO>, a: u128) -> Seq<MinerDAO>
    decreases ms.len(),
{
    if ms.len() == 0 {
        seq![]
    } else {
        let rest = owned_by(ms.drop_last(), a);
        if ms.last().address == a {
            rest.push(ms.last())
        } else {
            rest
        }
    }
}

/// `w` presents wallet row `row` with miner rows `ms`: each miner under the
/// wallet's club name, in order, and the aggregates taken over exactly them.
pub open spec fn is_wallet_view(w: Wallet, row: WalletDao, ms: Seq<MinerDAO>) -> bool {
    &&& w.address@ == uuid_text(row.address)
    &&& w.club_name@ == row.club_name@
    &&& w.workers_online@.len() == ms.len()
    &&& forall|k: int|
        0 <= k < ms.len() ==> #[trigger] is_miner_view(w.workers_online@[k], ms[k], row.club_name@)
    &&& w.total_hash_rate == rows_hash_total(ms)
    &&& w.total_shares_mined == rows_shares_total(ms)
    &&& w.total_workers_online == ms.len()
}

/// Every wallet row of `ws` can be presented with its miners from `ms`.
pub open spec fn all_fit(ws: Seq<WalletDao>, ms: Seq<MinerDAO>) -> bool {
    forall|i: int| 0 <= i < ws.len() ==> rows_fit(#[trigger] owned_by(ms, ws[i].address))
}

/// The miner rows that a wallet view at `a` is built from, given what the
/// miner scan returned: none where it failed.
pub open spec fn scanned_owned_by(miners: Result<Vec<MinerDAO>, StorageFault>, a: u128) -> Seq<MinerDAO> {
    match miners {
        Ok(ms) => owned_by(ms@, a),
        Err(_) => seq![],
    }
}

proof fn lemma_prefix_totals(vs: Seq<Miner>, k: int)
    requires
        0 <= k <= vs.len(),
        forall|j: int| 0 <= j < vs.len() ==> 0 <= #[trigger] vs[j].hash_rate,
        forall|j: int| 0 <= j < vs.len() ==> 0 <= #[trigger] vs[j].shares_mined,
    ensures
        0 <= hash_total(vs.take(k)) <= hash_total(vs),
        0 <= shares_total(vs.take(k)) <= shares_total(vs),
    decreases vs.len(),
{
    if vs.len() > 0 {
        let d = vs.drop_last();
        if k == vs.len() {
            assert(vs.take(k) =~= vs);
            assert(d.take(d.len() as int) =~= d);
            lemma_prefix_totals(d, d.len() as int);
        } else {
            assert(vs.take(k) =~= d.take(k));
            lemma_prefix_totals(d, k);
        }
    }
}

proof fn lemma_view_totals(vs: Seq<Miner>, ms: Seq<MinerDAO>, club: Seq<char>)
    requires
        vs.len() == ms.len(),
        forall|k: int| 0 <= k < ms.len() ==> #[trigger] is_miner_view(vs[k], ms[k], club),
    ensures
        hash_total(vs) == rows_hash_total(ms),
        shares_total(vs) == rows_shares_total(ms),
    decreases ms.len(),
{
    if ms.len() > 0 {
        let n = ms.len() - 1;
        assert(is_miner_view(vs[n], ms[n], club));
        assert forall|k: int| 0 <= k < n implies #[trigger] is_miner_view(
            vs.drop_last()[k],
            ms.drop_last()[k],
            club,
        ) by {
            assert(is_miner_view(vs[k], ms[k], club));
        }
        lemma_view_totals(vs.drop_last(), ms.drop_last(), club);
    }
}

impl WalletDao {
    /// The view of this row with the given miners, its aggregates summed over them.
    pub fn to_wallet(&self, workers_online: Vec<Miner>) -> (r: Wallet)
        requires
            views_fit(workers_online@),
        ensures
            r.address@ == uuid_text(self.address),
            r.club_name@ == self.club_name@,
            r.workers_online@ == workers_online@,
            r.total_hash_rate == hash_total(workers_online@),
            r.total_shares_mined == shares_total(workers_online@),
            r.total_workers_online == workers_online@.len(),
    {
        let mut total_hash_rate: i32 = 0;
        let mut total_shares_mined: i32 = 0;
        let mut i: usize = 0;
        while i < workers_online.len()
            invariant
                0 <= i <= workers_online@.len(),
                views_fit(workers_online@),
                total_hash_rate == hash_total(workers_online@.take(i as int)),
                total_shares_mined == shares_total(workers_online@.take(i as int)),
            decreases workers_online@.len() - i,
        {
            proof {
                let vs = workers_online@;
                assert(vs.take(i + 1).drop_last() =~= vs.take(i as int));
                lemma_prefix_totals(vs, i + 1);
            }
            total_hash_rate = total_hash_rate + workers_online[i].hash_rate;
            total_shares_mined = total_shares_mined + workers_online[i].shares_mined;
            i = i + 1;
        }
        proof {
            assert(workers_online@.take(i as int) =~= workers_online@);
        }
        let total_workers_online = workers_online.len() as i32;
        Wallet {
            address: uuid_string(self.address),
            club_name: self.club_name.clone(),
            total_hash_rate,
            total_shares_mined,
            total_workers_online,
            workers_online,
        }
    }
}

/// The views of the miner rows of `ms` owned by the wallet at `address`, under `club_name`.
fn owned_views(address: u128, club_name: &String, ms: &Vec<MinerDAO>) -> (r: Vec<Miner>)
    ensures
        r@.len() == owned_by(ms@, address).len(),
        forall|k: int|
            0 <= k < r@.len() ==> #[trigger] is_miner_view(
                r@[k],
                owned_by(ms@, address)[k],
                club_name@,
            ),
{
    let mut r: Vec<Miner> = Vec::new();
    let mut i: usize = 0;
    while i < ms.len()
        invariant
            0 <= i <= ms@.len(),
            r@.len() == owned_by(ms@.take(i as int), address).len(),
            forall|k: int|
                0 <= k < r@.len() ==> #[trigger] is_miner_view(
                    r@[k],
                    owned_by(ms@.take(i as int), address)[k],
                    club_name@,
                ),
        decreases ms@.len() - i,
    {
        proof {
            assert(ms@.take(i + 1).drop_last() =~= ms@.take(i as int));
        }
        if ms[i].address == address {
            let v = ms[i].to_miner(club_name.clone());
            r.push(v);
        }
        i = i + 1;
    }
    proof {
        assert(ms@.take(i as int) =~= ms@);
    }
    r
}

/// The view of wallet row `row` with its miners from `ms`.
fn wallet_view(row: &WalletDao, ms: &Vec<MinerDAO>) -> (r: Wallet)
    requires
        rows_fit(owned_by(ms@, row.address)),
    ensures
        is_wallet_view(r, *row, owned_by(ms@, row.address)),
{
    let views = owned_views(row.address, &row.club_name, ms);
    let ghost owned = owned_by(ms@, row.address);
    proof {
        lemma_view_totals(views@, owned, row.club_name@);
        assert forall|k: int| 0 <= k < views@.len() implies 0 <= #[trigger] views@[k].hash_rate by {
            assert(is_miner_view(views@[k], owned[k], row.club_name@));
            assert(0 <= owned[k].hash_rate);
        }
        assert forall|k: int| 0 <= k < views@.len() implies 0
            <= #[trigger] views@[k].shares_mined by {
            assert(is_miner_view(views@[k], owned[k], row.club_name@));
            assert(0 <= owned[k].shares_mined);
        }
        assert(views_fit(views@));
    }
    row.to_wallet(views)
}


proof fn lemma_find_wallet_skip(ws: Seq<WalletDao>, a: u128, i: int)
    requires
        0 <= i < ws.len(),
        ws[i].address != a,
    ensures
        find_wallet(ws.subrange(i, ws.len() as int), a) == find_wallet(
            ws.subrange(i + 1, ws.len() as int),
            a,
        ),
{
    let t = ws.subrange(i, ws.len() as int);
    assert(t.subrange(1, t.len() as int) =~= ws.subrange(i + 1, ws.len() as int));
}

/// The position of the first row of `ws` at address `a`, if any.
pub(crate) fn lookup_wallet(ws: &Vec<WalletDao>, a: u128) -> (r: Option<usize>)
    ensures
        r is None <==> find_wallet(ws@, a) is None,
        r matches Some(i) ==> (i < ws@.len() && ws@[i as int].address == a && find_wallet(ws@, a)
            == Some(ws@[i as int])),
{
    proof {
        assert(ws@.subrange(0, ws@.len() as int) =~= ws@);
    }
    let mut i: usize = 0;
    while i < ws.len()
        invariant
            0 <= i <= ws@.len(),
            find_wallet(ws@, a) == find_wallet(ws@.subrange(i as int, ws@.len() as int), a),
        decreases ws@.len() - i,
    {
        if ws[i].address == a {
            proof {
                assert(ws@.subrange(i as int, ws@.len() as int)[0] == ws@[i as int]);
            }
            return Some(i);
        }
        proof {
            lemma_find_wallet_skip(ws@, a, i as int);
        }
        i = i + 1;
    }
    None
}

/// All wallets, each with its miners and aggregates. Where either scan
/// failed the result is empty; it never fails.
pub fn fetch_all_wallets(
    wallets: Result<Vec<WalletDao>, StorageFault>,
    miners: Result<Vec<MinerDAO>, StorageFault>,
) -> (r: Vec<Wallet>)
    requires
        wallets matches Ok(ws) ==> (miners matches Ok(ms) ==> all_fit(ws@, ms@)),
    ensures
        wallets is Err ==> r@.len() == 0,
        miners is Err ==> r@.len() == 0,
        wallets matches Ok(ws) ==> (miners matches Ok(ms) ==> {
            &&& r@.len() == ws@.len()
            &&& forall|i: int|
                0 <= i < ws@.len() ==> #[trigger] is_wallet_view(
                    r@[i],
                    ws@[i],
                    owned_by(ms@, ws@[i].address),
                )
        }),
{
    let ws = match wallets {
        Ok(ws) => ws,
        Err(_) => return Vec::new(),
    };
    let ms = match miners {
        Ok(ms) => ms,
        Err(_) => return Vec::new(),
    };
    let mut r: Vec<Wallet> = Vec::new();
    let mut i: usize = 0;
    while i < ws.len()
        invariant
            0 <= i <= ws@.len(),
            all_fit(ws@, ms@),
            r@.len() == i,
            forall|j: int|
                0 <= j < i ==> #[trigger] is_wallet_view(
                    r@[j],
                    ws@[j],
                    owned_by(ms@, ws@[j].address),
                ),
        decreases ws@.len() - i,
    {
        proof {
            assert(rows_fit(owned_by(ms@, ws@[i as int].address)));
        }
        let w = wallet_view(&ws[i], &ms);
        r.push(w);
        i = i + 1;
    }
    r
}

/// The wallet at `address`, with its miners and aggregates; `None` where no
/// wallet row has that address or the wallet scan failed. A failed miner
/// scan gives the wallet with no miners.
pub fn fetch_wallet_by_id(
    address: u128,
    wallets: Result<Vec<WalletDao>, StorageFault>,
    miners: Result<Vec<MinerDAO>, StorageFault>,
) -> (r: Option<Wallet>)
    requires
        rows_fit(scanned_owned_by(miners, address)),
    ensures
        wallets is Err ==> r is None,
        wallets is Ok ==> (r is Some <==> find_wallet(wallets->Ok_0@, address) is Some),
        r matches Some(w) ==> is_wallet_view(
            w,
            find_wallet(wallets->Ok_0@, address)->Some_0,
            scanned_owned_by(miners, address),
        ),
{
    if wallets.is_err() {
        return None;
    }
    let ws = wallets.unwrap();
    let ms = if miners.is_ok() {
        miners.unwrap()
    } else {
        Vec::new()
    };
    proof {
        assert(owned_by(ms@, address) =~= scanned_owned_by(miners, address));
    }
    match lookup_wallet(&ws, address) {
        Some(i) => Some(wallet_view(&ws[i], &ms)),
        None => None,
    }
}

/// A new wallet row for the request, at a freshly drawn random address. The
/// caller persists it and then calls [`wallet_created`].
pub fn create_new_wallet(wallet_request: WalletRequest) -> (r: WalletDao)
    ensures
        r.club_name@ == wallet_request.club_name@,
{
    WalletDao { address: random_uuid(), club_name: wallet_request.club_name }
}

/// The outcome of creating wallet row `row`, given whether persisting it
/// succeeded: its view with no miners, or a storage error.
pub fn wallet_created(row: &WalletDao, inserted: Result<(), StorageFault>) -> (r: Result<
    Wallet,
    CreateError,
>)
    ensures
        inserted is Err ==> r == Err::<Wallet, CreateError>(CreateError::Storage),
        inserted is Ok ==> (r matches Ok(w) && is_wallet_view(w, *row, seq![])),
{
    match inserted {
        Ok(_) => {
            let empty: Vec<MinerDAO> = Vec::new();
            proof {
                assert(owned_by(empty@, row.address) =~= seq![]);
            }
            Ok(wallet_view(row, &empty))
        },
        Err(_) => Err(CreateError::Storage),
    }
}

impl Wallet {
    /// The storage row of this view, or `None` where the address is not a UUID.
    pub fn to_wallet_dao(&self) -> (r: Option<WalletDao>)
        ensures
            r is Some <==> uuid_parsed(self.address@) is Some,
            r matches Some(d) ==> (Some(d.address) == uuid_parsed(self.address@) && d.club_name@
                == self.club_name@),
    {
        match parse_uuid(self.address.as_str()) {
            Some(address) => Some(WalletDao { address, club_name: self.club_name.clone() }),
            None => None,
        }
    }
}


proof fn lemma_owned_prefix(ms: Seq<MinerDAO>, a: u128, k: int)
    requires
        0 <= k <= ms.len(),
    ensures
        owned_by(ms.take(k), a).len() <= owned_by(ms, a).len(),
        owned_by(ms.take(k), a) =~= owned_by(ms, a).take(owned_by(ms.take(k), a).len() as int),
    decreases ms.len(),
{
    if k == ms.len() {
        assert(ms.take(k) =~= ms);
    } else {
        let d = ms.drop_last();
        assert(ms.take(k) =~= d.take(k));
        lemma_owned_prefix(d, a, k);
    }
}

proof fn lemma_rows_prefix_totals(rs: Seq<MinerDAO>, k: int)
    requires
        0 <= k <= rs.len(),
        forall|j: int| 0 <= j < rs.len() ==> 0 <= #[trigger] rs[j].hash_rate,
        forall|j: int| 0 <= j < rs.len() ==> 0 <= #[trigger] rs[j].shares_mined,
    ensures
        rows_hash_total(rs.take(k)) <= rows_hash_total(rs),
        rows_shares_total(rs.take(k)) <= rows_shares_total(rs),
    decreases rs.len(),
{
    if rs.len() > 0 {
        let d = rs.drop_last();
        if k == rs.len() {
            assert(rs.take(k) =~= rs);
        } else {
            assert(rs.take(k) =~= d.take(k));
            lemma_rows_prefix_totals(d, k);
        }
    }
}

/// Whether the miners of `ms` at `address` can be presented in a wallet
/// view: their telemetry is non-negative, and their totals and their count
/// fit. This is what [`fetch_all_wallets`] and [`fetch_wallet_by_id`] require.
pub fn miners_fit(ms: &Vec<MinerDAO>, address: u128) -> (r: bool)
    ensures
        r == rows_fit(owned_by(ms@, address)),
{
    let ghost full = owned_by(ms@, address);
    let mut hash: i32 = 0;
    let mut shares: i32 = 0;
    let mut count: i32 = 0;
    let mut i: usize = 0;
    while i < ms.len()
        invariant
            0 <= i <= ms@.len(),
            full == owned_by(ms@, address),
            hash == rows_hash_total(owned_by(ms@.take(i as int), address)),
            shares == rows_shares_total(owned_by(ms@.take(i as int), address)),
            count == owned_by(ms@.take(i as int), address).len(),
            forall|k: int|
                0 <= k < owned_by(ms@.take(i as int), address).len() ==> 0 <= #[trigger] owned_by(
                    ms@.take(i as int),
                    address,
                )[k].hash_rate,
            forall|k: int|
                0 <= k < owned_by(ms@.take(i as int), address).len() ==> 0 <= #[trigger] owned_by(
                    ms@.take(i as int),
                    address,
                )[k].shares_mined,
        decreases ms@.len() - i,
    {
        let ghost before = owned_by(ms@.take(i as int), address);
        proof {
            assert(ms@.take(i + 1).drop_last() =~= ms@.take(i as int));
            lemma_owned_prefix(ms@, address, i + 1);
        }
        if ms[i].address == address {
            let ghost after = owned_by(ms@.take(i + 1), address);
            proof {
                assert(after =~= before.push(ms@[i as int]));
                assert(full[before.len() as int] == after[before.len() as int]);
            }
            if ms[i].hash_rate < 0 || ms[i].shares_mined < 0 {
                return false;
            }
            if hash > i32::MAX - ms[i].hash_rate || shares > i32::MAX - ms[i].shares_mined || count
                == i32::MAX {
                proof {
                    if rows_fit(full) {
                        lemma_rows_prefix_totals(full, after.len() as int);
                        assert(after.drop_last() =~= before);
                    }
                }
                return false;
            }
            hash = hash + ms[i].hash_rate;
            shares = shares + ms[i].shares_mined;
            count = count + 1;
            proof {
                assert(after.drop_last() =~= before);
            }
        }
        i = i + 1;
    }
    proof {
        assert(ms@.take(i as int) =~= ms@);
    }
    true
}

/// A wallet view's aggregates are the sums of the hash rates and of the
/// shares mined over the miners it presents, and their count; a wallet with
/// no miners presents none and has every aggregate zero.
pub proof fn wallet_totals_match_miners(w: Wallet, row: WalletDao, ms: Seq<MinerDAO>)
    requires
        is_wallet_view(w, row, ms),
    ensures
        w.total_hash_rate == hash_total(w.workers_online@),
        w.total_shares_mined == shares_total(w.workers_online@),
        w.total_workers_online == w.workers_online@.len(),
        ms.len() == 0 ==> {
            &&& w.workers_online@.len() == 0
            &&& w.total_hash_rate == 0
            &&& w.total_shares_mined == 0
            &&& w.total_workers_online == 0
        },
{
    lemma_view_totals(w.workers_online@, ms, row.club_name@);
}

/// Reading a wallet back after one more miner row of it was stored presents
/// the miners it presented before, then the new miner under the wallet's club
/// name, and raises each aggregate by that miner's part.
pub proof fn new_miner_joins_wallet(
    ws: Seq<WalletDao>,
    ms: Seq<MinerDAO>,
    row: MinerDAO,
    before: Wallet,
    after: Wallet,
)
    requires
        find_wallet(ws, row.address) is Some,
        is_wallet_view(before, find_wallet(ws, row.address)->Some_0, owned_by(ms, row.address)),
        is_wallet_view(
            after,
            find_wallet(ws, row.address)->Some_0,
            owned_by(ms.push(row), row.address),
        ),
    ensures
        after.workers_online@.len() == before.workers_online@.len() + 1,
        forall|k: int|
            0 <= k < before.workers_online@.len() ==> #[trigger] is_miner_view(
                after.workers_online@[k],
                owned_by(ms, row.address)[k],
                before.club_name@,
            ),
        is_miner_view(after.workers_online@.last(), row, before.club_name@),
        after.total_hash_rate == before.total_hash_rate + row.hash_rate,
        after.total_shares_mined == before.total_shares_mined + row.shares_mined,
        after.total_workers_online == before.total_workers_online + 1,
{
    let a = row.address;
    let club = find_wallet(ws, a)->Some_0.club_name@;
    assert(ms.push(row).drop_last() =~= ms);
    let old_rows = owned_by(ms, a);
    let new_rows = owned_by(ms.push(row), a);
    assert(new_rows =~= old_rows.push(row));
    assert(new_rows.drop_last() =~= old_rows);
    let n = old_rows.len() as int;
    assert(is_miner_view(after.workers_online@[n], new_rows[n], club));
    assert forall|k: int| 0 <= k < before.workers_online@.len() implies #[trigger] is_miner_view(
        after.workers_online@[k],
        owned_by(ms, a)[k],
        before.club_name@,
    ) by {
        assert(is_miner_view(after.workers_online@[k], new_rows[k], club));
    }
}

} // verus!
