//! Miners: the storage row, the presentation view, and the miner repository.
use crate::ids::{parse_uuid, random_in, random_uuid, uuid_parsed, uuid_string, uuid_text};
use crate::wallet::{find_wallet, lookup_wallet, CreateError, StorageFault, WalletDao};
use vstd::prelude::*;

verus! {

/// Lowest simulated hash rate given to a new miner.
pub const HASH_RATE_MIN: i32 = 20;

/// Bound (exclusive) of the simulated hash rate given to a new miner.
pub const HASH_RATE_END: i32 = 100;

/// Lowest simulated share count given to a new miner.
pub const SHARES_MIN: i32 = 1;

/// Bound (exclusive) of the simulated share count given to a new miner.
pub const SHARES_END: i32 = 40;

/// A miner as presented to callers, with its wallet's club name.
#[derive(Debug, Clone)]
pub struct Miner {
    pub id: String,
    pub address: String,
    pub club_name: String,
    pub nickname: String,
    pub hash_rate: i32,
    pub shares_mined: i32,
}

/// What a caller supplies to create a miner.
#[derive(Debug, Clone)]
pub struct MinerRequest {
    pub nickname: String,
}

/// A miner as stored: identifiers are UUIDs held by their 128-bit values,
/// and `address` refers to the owning wallet.
#[derive(Debug, Clone)]
pub struct MinerDAO {
    pub id: u128,
    pub address: u128,
    pub nickname: String,
    pub hash_rate: i32,
    pub shares_mined: i32,
}

/// `v` presents row `m` under the club name `club`.
pub open spec fn is_miner_view(v: Miner, m: MinerDAO, club: Seq<char>) -> bool {
    &&& v.id@ == uuid_text(m.id)
    &&& v.address@ == uuid_text(m.address)
    &&& v.club_name@ == club
    &&& v.nickname@ == m.nickname@
    &&& v.hash_rate == m.hash_rate
    &&& v.shares_mined == m.shares_mined
}

/// The club name of the first wallet row at `a` (where there is one).
pub open spec fn club_of(ws: Seq<WalletDao>, a: u128) -> Seq<char> {
    find_wallet(ws, a)->Some_0.club_name@
}

/// The miner rows whose wallet is among `ws`, in the order of `ms`: the inner join.
pub open spec fn joined(ws: Seq<WalletDao>, ms: Seq<MinerDAO>) -> Seq<MinerDAO>
    decreases ms.len(),
{
    if ms.len() == 0 {
        seq![]
    } else {
        let rest = joined(ws, ms.drop_last());
        if find_wallet(ws, ms.last().address) is Some {
            rest.push(ms.last())
        } else {
            rest
        }
    }
}

/// The joined rows (see [`joined`]) whose identifier is `id`, in order.
pub open spec fn joined_with_id(ws: Seq<WalletDao>, ms: Seq<MinerDAO>, id: u128) -> Seq<MinerDAO>
    decreases ms.len(),
{
    if ms.len() == 0 {
        seq![]
    } else {
        let rest = joined_with_id(ws, ms.drop_last(), id);
        if ms.last().id == id && find_wallet(ws, ms.last().address) is Some {
            rest.push(ms.last())
        } else {
            rest
        }
    }
}

/// `vs` presents the joined rows `js`, each under its own wallet's club name.
pub open spec fn are_joined_views(vs: Seq<Miner>, ws: Seq<WalletDao>, js: Seq<MinerDAO>) -> bool {
    &&& vs.len() == js.len()
    &&& forall|k: int|
        0 <= k < js.len() ==> #[trigger] is_miner_view(vs[k], js[k], club_of(ws, js[k].address))
}

impl Miner {
    /// The storage row of this view, or `None` where an identifier is not a UUID.
    pub fn to_miner_dao(&self) -> (r: Option<MinerDAO>)
        ensures
            r is Some <==> (uuid_parsed(self.id@) is Some && uuid_parsed(self.address@) is Some),
            r matches Some(d) ==> {
                &&& Some(d.id) == uuid_parsed(self.id@)
                &&& Some(d.address) == uuid_parsed(self.address@)
                &&& d.nickname@ == self.nickname@
                &&& d.hash_rate == self.hash_rate
                &&& d.shares_mined == self.shares_mined
            },
    {
        let id = parse_uuid(self.id.as_str());
        let address = parse_uuid(self.address.as_str());
        match (id, address) {
            (Some(id), Some(address)) => Some(
                MinerDAO {
                    id,
                    address,
                    nickname: self.nickname.clone(),
                    hash_rate: self.hash_rate,
                    shares_mined: self.shares_mined,
                },
            ),
            _ => None,
        }
    }
}

impl MinerDAO {
    /// The view of this row under the given club name.
    pub fn to_miner(&self, club_name: String) -> (r: Miner)
        ensures
            is_miner_view(r, *self, club_name@),
    {
        Miner {
            id: uuid_string(self.id),
            address: uuid_string(self.address),
            club_name,
            nickname: self.nickname.clone(),
            hash_rate: self.hash_rate,
            shares_mined: self.shares_mined,
        }
    }
}


proof fn lemma_joined_with_id_prefix(ws: Seq<WalletDao>, ms: Seq<MinerDAO>, id: u128, k: int)
    requires
        0 <= k <= ms.len(),
    ensures
        joined_with_id(ws, ms.take(k), id).len() <= joined_with_id(ws, ms, id).len(),
        forall|j: int|
            0 <= j < joined_with_id(ws, ms.take(k), id).len() ==> #[trigger] joined_with_id(
                ws,
                ms.take(k),
                id,
            )[j] == joined_with_id(ws, ms, id)[j],
    decreases ms.len(),
{
    if k == ms.len() {
        assert(ms.take(k) =~= ms);
    } else {
        let d = ms.drop_last();
        assert(ms.take(k) =~= d.take(k));
        lemma_joined_with_id_prefix(ws, d, id, k);
    }
}

/// Every miner whose wallet exists, presented with that wallet's club name,
/// in the order of the miner rows. Where either scan failed the result is
/// empty; it never fails.
pub fn fetch_all_miners(
    wallets: Result<Vec<WalletDao>, StorageFault>,
    miners: Result<Vec<MinerDAO>, StorageFault>,
) -> (r: Vec<Miner>)
    ensures
        wallets is Err ==> r@.len() == 0,
        miners is Err ==> r@.len() == 0,
        wallets is Ok && miners is Ok ==> are_joined_views(
            r@,
            wallets->Ok_0@,
            joined(wallets->Ok_0@, miners->Ok_0@),
        ),
{
    if wallets.is_err() || miners.is_err() {
        return Vec::new();
    }
    let ws = wallets.unwrap();
    let ms = miners.unwrap();
    let mut r: Vec<Miner> = Vec::new();
    let mut i: usize = 0;
    while i < ms.len()
        invariant
            0 <= i <= ms@.len(),
            wallets is Ok && miners is Ok,
            ws@ == wallets->Ok_0@,
            ms@ == miners->Ok_0@,
            are_joined_views(r@, ws@, joined(ws@, ms@.take(i as int))),
        decreases ms@.len() - i,
    {
        proof {
            assert(ms@.take(i + 1).drop_last() =~= ms@.take(i as int));
        }
        match lookup_wallet(&ws, ms[i].address) {
            Some(j) => {
                let v = ms[i].to_miner(ws[j].club_name.clone());
                r.push(v);
            },
            None => {},
        }
        i = i + 1;
    }
    proof {
        assert(ms@.take(i as int) =~= ms@);
    }
    r
}

/// The first miner with identifier `id` whose wallet exists, presented with
/// that wallet's club name; `None` where there is none or a scan failed.
pub fn fetch_miner_by_id(
    id: u128,
    wallets: Result<Vec<WalletDao>, StorageFault>,
    miners: Result<Vec<MinerDAO>, StorageFault>,
) -> (r: Option<Miner>)
    ensures
        wallets is Err ==> r is None,
        miners is Err ==> r is None,
        wallets is Ok && miners is Ok ==> (r is Some <==> joined_with_id(
            wallets->Ok_0@,
            miners->Ok_0@,
            id,
        ).len() > 0),
        r matches Some(v) ==> ({
            let m = joined_with_id(wallets->Ok_0@, miners->Ok_0@, id)[0];
            is_miner_view(v, m, club_of(wallets->Ok_0@, m.address))
        }),
{
    if wallets.is_err() || miners.is_err() {
        return None;
    }
    let ws = wallets.unwrap();
    let ms = miners.unwrap();
    let mut i: usize = 0;
    while i < ms.len()
        invariant
            0 <= i <= ms@.len(),
            wallets is Ok && miners is Ok,
            ws@ == wallets->Ok_0@,
            ms@ == miners->Ok_0@,
            joined_with_id(ws@, ms@.take(i as int), id).len() == 0,
        decreases ms@.len() - i,
    {
        proof {
            assert(ms@.take(i + 1).drop_last() =~= ms@.take(i as int));
            lemma_joined_with_id_prefix(ws@, ms@, id, i + 1);
        }
        if ms[i].id == id {
            match lookup_wallet(&ws, ms[i].address) {
                Some(j) => {
                    proof {
                        assert(joined_with_id(ws@, ms@.take(i + 1), id)[0] == ms@[i as int]);
                    }
                    return Some(ms[i].to_miner(ws[j].club_name.clone()));
                },
                None => {},
            }
        }
        i = i + 1;
    }
    proof {
        assert(ms@.take(i as int) =~= ms@);
    }
    None
}

/// The miner row to persist for the wallet at `address`, with the given
/// identifier and telemetry, or the reason there is none: the wallet scan
/// failed, or no wallet has that address.
pub fn new_miner_row(
    miner_request: MinerRequest,
    address: u128,
    id: u128,
    hash_rate: i32,
    shares_mined: i32,
    wallets: Result<Vec<WalletDao>, StorageFault>,
) -> (r: Result<MinerDAO, CreateError>)
    ensures
        wallets is Err ==> r == Err::<MinerDAO, CreateError>(CreateError::Storage),
        wallets is Ok && find_wallet(wallets->Ok_0@, address) is None ==> r == Err::<
            MinerDAO,
            CreateError,
        >(CreateError::NotFound),
        wallets is Ok && find_wallet(wallets->Ok_0@, address) is Some ==> r is Ok,
        r matches Ok(d) ==> {
            &&& d.id == id
            &&& d.address == address
            &&& d.nickname@ == miner_request.nickname@
            &&& d.hash_rate == hash_rate
            &&& d.shares_mined == shares_mined
        },
{
    if wallets.is_err() {
        return Err(CreateError::Storage);
    }
    let ws = wallets.unwrap();
    match lookup_wallet(&ws, address) {
        None => Err(CreateError::NotFound),
        Some(_) => Ok(
            MinerDAO { id, address, nickname: miner_request.nickname, hash_rate, shares_mined },
        ),
    }
}

/// A new miner row for the wallet at `address`, with a freshly drawn random
/// identifier and simulated telemetry, or the reason there is none (see
/// [`new_miner_row`]). Only a returned row is to be persisted; the caller
/// then calls [`miner_created`].
pub fn create_new_miner(
    miner_request: MinerRequest,
    address: u128,
    wallets: Result<Vec<WalletDao>, StorageFault>,
) -> (r: Result<MinerDAO, CreateError>)
    ensures
        wallets is Err ==> r == Err::<MinerDAO, CreateError>(CreateError::Storage),
        wallets is Ok && find_wallet(wallets->Ok_0@, address) is None ==> r == Err::<
            MinerDAO,
            CreateError,
        >(CreateError::NotFound),
        wallets is Ok && find_wallet(wallets->Ok_0@, address) is Some ==> r is Ok,
        r matches Ok(d) ==> {
            &&& d.address == address
            &&& d.nickname@ == miner_request.nickname@
            &&& HASH_RATE_MIN <= d.hash_rate < HASH_RATE_END
            &&& SHARES_MIN <= d.shares_mined < SHARES_END
        },
{
    let id = random_uuid();
    let hash_rate = random_in(HASH_RATE_MIN, HASH_RATE_END);
    let shares_mined = random_in(SHARES_MIN, SHARES_END);
    new_miner_row(miner_request, address, id, hash_rate, shares_mined, wallets)
}

/// The outcome of creating miner row `row`, given whether persisting it
/// succeeded and a fresh scan of the wallets: its view under the owning
/// wallet's club name, a storage error where persisting failed, or not-found
/// where the owning wallet cannot be read back.
pub fn miner_created(
    row: &MinerDAO,
    inserted: Result<(), StorageFault>,
    wallets: Result<Vec<WalletDao>, StorageFault>,
) -> (r: Result<Miner, CreateError>)
    ensures
        inserted is Err ==> r == Err::<Miner, CreateError>(CreateError::Storage),
        inserted is Ok && wallets is Err ==> r == Err::<Miner, CreateError>(CreateError::NotFound),
        inserted is Ok && wallets is Ok ==> (r is Ok <==> find_wallet(
            wallets->Ok_0@,
            row.address,
        ) is Some),
        inserted is Ok && wallets is Ok && r is Err ==> r == Err::<Miner, CreateError>(
            CreateError::NotFound,
        ),
        r matches Ok(v) ==> is_miner_view(v, *row, club_of(wallets->Ok_0@, row.address)),
{
    if inserted.is_err() {
        return Err(CreateError::Storage);
    }
    if wallets.is_err() {
        return Err(CreateError::NotFound);
    }
    let ws = wallets.unwrap();
    match lookup_wallet(&ws, row.address) {
        Some(j) => Ok(row.to_miner(ws[j].club_name.clone())),
        None => Err(CreateError::NotFound),
    }
}

} // verus!
