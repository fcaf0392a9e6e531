use mining_pool::miner::{
    create_new_miner, fetch_all_miners, fetch_miner_by_id, miner_created, new_miner_row, Miner,
    MinerDAO, MinerRequest,
};
use mining_pool::wallet::{
    create_new_wallet, fetch_all_wallets, fetch_wallet_by_id, miners_fit, wallet_created, CreateError,
    StorageFault, Wallet, WalletDao, WalletRequest,
};
use std::collections::HashSet;

const A: u128 = 0x936DA01F9ABD4D9D80C702AF85C822A8;
const B: u128 = 0x00000000000000000000000000000001;

fn wallet_row(address: u128, club: &str) -> WalletDao {
    WalletDao { address, club_name: club.to_string() }
}

fn miner_row(id: u128, address: u128, nickname: &str, hash_rate: i32, shares: i32) -> MinerDAO {
    MinerDAO { id, address, nickname: nickname.to_string(), hash_rate, shares_mined: shares }
}

#[test]
fn wallet_totals_are_sums_over_its_miners() {
    let ws = vec![wallet_row(A, "Red"), wallet_row(B, "Blue")];
    let ms = vec![
        miner_row(10, A, "rig1", 30, 5),
        miner_row(11, B, "rig2", 50, 7),
        miner_row(12, A, "rig3", 21, 2),
    ];
    let all = fetch_all_wallets(Ok(ws), Ok(ms));
    assert_eq!(all.len(), 2);
    assert_eq!(all[0].club_name, "Red");
    assert_eq!(all[0].total_hash_rate, 51);
    assert_eq!(all[0].total_shares_mined, 7);
    assert_eq!(all[0].total_workers_online, 2);
    assert_eq!(all[0].workers_online[0].nickname, "rig1");
    assert_eq!(all[0].workers_online[1].nickname, "rig3");
    assert_eq!(all[0].workers_online[1].club_name, "Red");
    assert_eq!(all[1].total_hash_rate, 50);
    assert_eq!(all[1].total_shares_mined, 7);
    assert_eq!(all[1].total_workers_online, 1);
}

#[test]
fn wallet_without_miners_has_zero_totals() {
    let w = wallet_row(A, "Red").to_wallet(Vec::new());
    assert_eq!(w.total_hash_rate, 0);
    assert_eq!(w.total_shares_mined, 0);
    assert_eq!(w.total_workers_online, 0);
    assert!(w.workers_online.is_empty());
}

#[test]
fn list_two_wallets_without_miners() {
    let ws = vec![wallet_row(A, "A"), wallet_row(B, "B")];
    let all = fetch_all_wallets(Ok(ws), Ok(Vec::new()));
    assert_eq!(all.len(), 2);
    assert_eq!(all[0].total_workers_online, 0);
    assert_eq!(all[1].total_workers_online, 0);
}

#[test]
fn list_operations_are_empty_on_storage_fault() {
    let ws = vec![wallet_row(A, "A"), wallet_row(B, "B")];
    assert!(fetch_all_wallets(Err(StorageFault), Ok(Vec::new())).is_empty());
    assert!(fetch_all_wallets(Ok(ws.clone()), Err(StorageFault)).is_empty());
    let ms = vec![miner_row(10, A, "rig1", 30, 5)];
    assert!(fetch_all_miners(Err(StorageFault), Ok(ms.clone())).is_empty());
    assert!(fetch_all_miners(Ok(ws), Err(StorageFault)).is_empty());
}

#[test]
fn list_miners_is_an_inner_join() {
    let ws = vec![wallet_row(A, "Red"), wallet_row(B, "Blue")];
    let orphan: u128 = 77;
    let ms = vec![
        miner_row(10, B, "rig1", 30, 5),
        miner_row(11, orphan, "lost", 50, 7),
        miner_row(12, A, "rig3", 21, 2),
    ];
    let all = fetch_all_miners(Ok(ws), Ok(ms));
    assert_eq!(all.len(), 2);
    assert_eq!(all[0].nickname, "rig1");
    assert_eq!(all[0].club_name, "Blue");
    assert_eq!(all[1].nickname, "rig3");
    assert_eq!(all[1].club_name, "Red");
    assert_eq!(all[1].hash_rate, 21);
    assert_eq!(all[1].shares_mined, 2);
}

#[test]
fn get_wallet_never_created_is_not_found() {
    let ws = vec![wallet_row(A, "Red")];
    assert!(fetch_wallet_by_id(B, Ok(ws), Ok(Vec::new())).is_none());
    assert!(fetch_wallet_by_id(A, Err(StorageFault), Ok(Vec::new())).is_none());
}

#[test]
fn get_wallet_with_failed_miner_scan_has_no_miners() {
    let ws = vec![wallet_row(A, "Red")];
    let w = fetch_wallet_by_id(A, Ok(ws), Err(StorageFault)).unwrap();
    assert_eq!(w.club_name, "Red");
    assert_eq!(w.total_workers_online, 0);
    assert_eq!(w.total_hash_rate, 0);
}

#[test]
fn get_miner_never_created_is_not_found() {
    let ws = vec![wallet_row(A, "Red")];
    let ms = vec![miner_row(10, A, "rig1", 30, 5)];
    assert!(fetch_miner_by_id(11, Ok(ws.clone()), Ok(ms.clone())).is_none());
    assert!(fetch_miner_by_id(10, Err(StorageFault), Ok(ms.clone())).is_none());
    assert!(fetch_miner_by_id(10, Ok(ws), Err(StorageFault)).is_none());
}

#[test]
fn get_miner_by_id_presents_its_wallet_club() {
    let ws = vec![wallet_row(A, "Red"), wallet_row(B, "Blue")];
    let ms = vec![miner_row(10, A, "rig1", 30, 5), miner_row(11, B, "rig2", 44, 9)];
    let m = fetch_miner_by_id(11, Ok(ws), Ok(ms)).unwrap();
    assert_eq!(m.nickname, "rig2");
    assert_eq!(m.club_name, "Blue");
    assert_eq!(m.hash_rate, 44);
    assert_eq!(m.shares_mined, 9);
    assert_eq!(m.id, "00000000-0000-0000-0000-00000000000b");
    assert_eq!(m.address, "00000000-0000-0000-0000-000000000001");
}

#[test]
fn create_miner_for_missing_wallet_is_not_found() {
    let ws = vec![wallet_row(A, "Red")];
    let r = create_new_miner(MinerRequest { nickname: "rig1".to_string() }, B, Ok(ws));
    assert_eq!(r.err(), Some(CreateError::NotFound));
}

#[test]
fn create_miner_with_failed_wallet_scan_is_a_storage_error() {
    let r = create_new_miner(MinerRequest { nickname: "rig1".to_string() }, A, Err(StorageFault));
    assert_eq!(r.err(), Some(CreateError::Storage));
}

#[test]
fn miner_created_reports_each_outcome() {
    let ws = vec![wallet_row(A, "Red")];
    let row = miner_row(10, A, "rig1", 30, 5);
    assert_eq!(miner_created(&row, Err(StorageFault), Ok(ws.clone())).err(), Some(CreateError::Storage));
    assert_eq!(miner_created(&row, Ok(()), Err(StorageFault)).err(), Some(CreateError::NotFound));
    assert_eq!(miner_created(&row, Ok(()), Ok(Vec::new())).err(), Some(CreateError::NotFound));
    let m = miner_created(&row, Ok(()), Ok(ws)).unwrap();
    assert_eq!(m.club_name, "Red");
    assert_eq!(m.nickname, "rig1");
}

#[test]
fn wallet_created_reports_storage_error() {
    let row = wallet_row(A, "Red");
    assert_eq!(wallet_created(&row, Err(StorageFault)).err(), Some(CreateError::Storage));
}

#[test]
fn create_wallet_then_miner_then_get_wallet() {
    let row = create_new_wallet(WalletRequest { club_name: "Red".to_string() });
    let created: Wallet = wallet_created(&row, Ok(())).unwrap();
    assert_eq!(created.club_name, "Red");
    assert_eq!(created.total_hash_rate, 0);
    assert_eq!(created.address, uuid::Uuid::from_u128(row.address).to_string());
    let store = vec![row.clone()];

    let m = create_new_miner(
        MinerRequest { nickname: "rig1".to_string() },
        row.address,
        Ok(store.clone()),
    )
    .unwrap();
    let presented: Miner = miner_created(&m, Ok(()), Ok(store.clone())).unwrap();
    assert_eq!(presented.club_name, "Red");
    assert!(presented.hash_rate >= 20 && presented.hash_rate < 100);
    assert!(presented.shares_mined >= 1 && presented.shares_mined < 40);

    let w = fetch_wallet_by_id(row.address, Ok(store), Ok(vec![m.clone()])).unwrap();
    assert_eq!(w.total_workers_online, 1);
    assert_eq!(w.workers_online[0].nickname, "rig1");
    assert_eq!(w.total_hash_rate, m.hash_rate);
    assert_eq!(w.total_shares_mined, m.shares_mined);
}

#[test]
fn generated_identifiers_do_not_collide() {
    let mut seen: HashSet<u128> = HashSet::new();
    let store = vec![wallet_row(A, "Red")];
    for _ in 0..5000 {
        let w = create_new_wallet(WalletRequest { club_name: "c".to_string() });
        assert!(seen.insert(w.address));
        let m = create_new_miner(MinerRequest { nickname: "n".to_string() }, A, Ok(store.clone()))
            .unwrap();
        assert!(seen.insert(m.id));
    }
}

#[test]
fn views_convert_back_to_rows() {
    let row = miner_row(10, A, "rig1", 30, 5);
    let back = row.to_miner("Red".to_string()).to_miner_dao().unwrap();
    assert_eq!(back.id, 10);
    assert_eq!(back.address, A);
    assert_eq!(back.nickname, "rig1");
    let w = wallet_row(A, "Red").to_wallet(Vec::new()).to_wallet_dao().unwrap();
    assert_eq!(w.address, A);
    assert_eq!(w.club_name, "Red");
    let bad = Miner {
        id: "not-a-uuid".to_string(),
        address: "00000000-0000-0000-0000-000000000001".to_string(),
        club_name: "Red".to_string(),
        nickname: "x".to_string(),
        hash_rate: 1,
        shares_mined: 1,
    };
    assert!(bad.to_miner_dao().is_none());
}

#[test]
fn miners_fit_checks_sign_totals_and_owner() {
    let ok = vec![miner_row(10, A, "a", 30, 5), miner_row(11, B, "b", -1, 5)];
    assert!(miners_fit(&ok, A));
    assert!(!miners_fit(&ok, B));
    assert!(miners_fit(&Vec::new(), A));
    let big = vec![miner_row(10, A, "a", i32::MAX, 5), miner_row(11, A, "b", 1, 5)];
    assert!(!miners_fit(&big, A));
    let edge = vec![miner_row(10, A, "a", i32::MAX - 1, 5), miner_row(11, A, "b", 1, i32::MAX - 5)];
    assert!(miners_fit(&edge, A));
    let w = fetch_wallet_by_id(A, Ok(vec![wallet_row(A, "Red")]), Ok(edge)).unwrap();
    assert_eq!(w.total_hash_rate, i32::MAX);
    assert_eq!(w.total_shares_mined, i32::MAX);
}

#[test]
fn new_miner_row_uses_the_given_values() {
    let ws = vec![wallet_row(A, "Red")];
    let req = || MinerRequest { nickname: "rig9".to_string() };
    let row = new_miner_row(req(), A, 42, 55, 12, Ok(ws.clone())).unwrap();
    assert_eq!(row.id, 42);
    assert_eq!(row.address, A);
    assert_eq!(row.nickname, "rig9");
    assert_eq!(row.hash_rate, 55);
    assert_eq!(row.shares_mined, 12);
    assert_eq!(new_miner_row(req(), B, 42, 55, 12, Ok(ws)).err(), Some(CreateError::NotFound));
    assert_eq!(new_miner_row(req(), A, 42, 55, 12, Err(StorageFault)).err(), Some(CreateError::Storage));
}
