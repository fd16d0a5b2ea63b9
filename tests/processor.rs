use roundnet::accounts::{derive_seat_seed, derive_table_seed, Key, TableData};
use roundnet::instruction::Errors;
use roundnet::processor::{process_instruction, AccountState, Effect};

const PROGRAM: Key = Key { bytes: [9u8; 32] };
const OWNER: Key = Key { bytes: [1u8; 32] };
const USER: Key = Key { bytes: [2u8; 32] };

fn acc(key: Key, is_signer: bool, data: Vec<u8>) -> AccountState {
    AccountState { key, is_signer, data }
}

fn table_of(owner: &Key) -> Key {
    derive_table_seed(owner, &PROGRAM).unwrap().1
}

fn seat_of(table: &Key, user: &Key) -> Key {
    derive_seat_seed(table, user, &PROGRAM).unwrap().1
}

fn init_table(closed: bool) -> Vec<u8> {
    let mut b = vec![0u8; 9];
    b.extend_from_slice(&OWNER.bytes);
    b.push(closed as u8);
    b
}

fn token_ix(tag: u8, text: &str) -> Vec<u8> {
    let mut b = vec![tag];
    let mut t = [0u8; 128];
    t[..text.len()].copy_from_slice(text.as_bytes());
    b.extend_from_slice(&t);
    b
}

fn add_seat(channel_key: Key) -> Vec<u8> {
    let mut b = vec![6u8];
    b.extend_from_slice(&channel_key.bytes);
    b
}

/// Carries out an effect on the accounts, as the host would.
fn apply(accounts: &mut [AccountState], effect: Effect) {
    match effect {
        Effect::Create { account, data, .. } | Effect::Write { account, data } => {
            accounts[account].data = data
        }
        Effect::Close { account, .. } => accounts[account].data = Vec::new(),
    }
}

fn table_accounts(signer: Key, table_data: Vec<u8>) -> Vec<AccountState> {
    vec![
        acc(signer, true, vec![]),
        acc(PROGRAM, false, vec![]),
        acc(table_of(&signer), false, table_data),
    ]
}

fn seat_accounts(closed: bool, owner_signs: bool) -> Vec<AccountState> {
    let table = table_of(&OWNER);
    vec![
        acc(USER, true, vec![]),
        acc(PROGRAM, false, vec![]),
        acc(OWNER, owner_signs, vec![]),
        acc(table, false, TableData::new(closed).to_bytes()),
        acc(seat_of(&table, &USER), false, vec![]),
    ]
}

#[test]
fn fewer_than_two_accounts_fails() {
    assert_eq!(process_instruction(&PROGRAM, &vec![], &[1]).unwrap_err(), Errors::MissingBaseAccounts);
    let one = vec![acc(OWNER, true, vec![])];
    assert_eq!(process_instruction(&PROGRAM, &one, &[1]).unwrap_err(), Errors::MissingBaseAccounts);
}

#[test]
fn unsigned_account_zero_fails() {
    let accounts = vec![acc(OWNER, false, vec![]), acc(PROGRAM, false, vec![])];
    assert_eq!(process_instruction(&PROGRAM, &accounts, &[1]).unwrap_err(), Errors::Account0MustBeSigner);
}

#[test]
fn account_one_not_program_fails() {
    let accounts = vec![acc(OWNER, true, vec![]), acc(USER, false, vec![])];
    assert_eq!(process_instruction(&PROGRAM, &accounts, &[1]).unwrap_err(), Errors::Account1MustBeProgramID);
}

#[test]
fn malformed_instruction_fails() {
    let accounts = table_accounts(OWNER, vec![]);
    assert_eq!(process_instruction(&PROGRAM, &accounts, &[9]).unwrap_err(), Errors::FailedToDeserialiseInstruction);
    assert_eq!(process_instruction(&PROGRAM, &accounts, &[]).unwrap_err(), Errors::FailedToDeserialiseInstruction);
}

#[test]
fn init_table_on_wrong_address_fails() {
    let mut accounts = table_accounts(OWNER, vec![]);
    accounts[2].key = table_of(&USER);
    assert_eq!(process_instruction(&PROGRAM, &accounts, &init_table(false)).unwrap_err(), Errors::BadTableAccount);
    accounts[2].key = OWNER;
    assert_eq!(process_instruction(&PROGRAM, &accounts, &init_table(false)).unwrap_err(), Errors::BadTableAccount);
    accounts.truncate(2);
    assert_eq!(process_instruction(&PROGRAM, &accounts, &init_table(false)).unwrap_err(), Errors::BadTableAccount);
}

#[test]
fn init_table_creates_empty_table() {
    let accounts = table_accounts(OWNER, vec![]);
    match process_instruction(&PROGRAM, &accounts, &init_table(true)).unwrap() {
        Effect::Create { account, seeds, space, data } => {
            assert_eq!(account, 2);
            assert_eq!(space, 1025);
            assert_eq!(seeds, derive_table_seed(&OWNER, &PROGRAM).unwrap().0);
            assert_eq!(data, TableData::new(true).to_bytes());
        }
        other => panic!("unexpected {:?}", other),
    }
}

#[test]
fn init_table_twice_fails() {
    let accounts = table_accounts(OWNER, TableData::new(false).to_bytes());
    assert_eq!(process_instruction(&PROGRAM, &accounts, &init_table(false)).unwrap_err(), Errors::Error);
}

#[test]
fn delete_table_refunds_signer() {
    let accounts = table_accounts(OWNER, TableData::new(false).to_bytes());
    match process_instruction(&PROGRAM, &accounts, &[1]).unwrap() {
        Effect::Close { account, refund } => assert_eq!((account, refund), (2, 0)),
        other => panic!("unexpected {:?}", other),
    }
    let empty = table_accounts(OWNER, vec![]);
    assert_eq!(process_instruction(&PROGRAM, &empty, &[1]).unwrap_err(), Errors::Error);
}

#[test]
fn channel_ops_use_second_region() {
    let mut accounts = table_accounts(OWNER, TableData::new(false).to_bytes());
    let e = process_instruction(&PROGRAM, &accounts, &token_ix(4, "chan")).unwrap();
    apply(&mut accounts, e);
    let t = TableData::from_bytes(&accounts[2].data).unwrap();
    assert_eq!(&t.channels[..5], b";chan");
    assert_eq!(t.bootstrap, [0u8; 512]);
    let e = process_instruction(&PROGRAM, &accounts, &token_ix(5, "chan")).unwrap();
    apply(&mut accounts, e);
    assert_eq!(accounts[2].data, TableData::new(false).to_bytes());
    assert_eq!(process_instruction(&PROGRAM, &accounts, &token_ix(5, "chan")).unwrap_err(), Errors::EntryDoesntExist);
}

#[test]
fn set_ops_on_short_table_data_fail() {
    let accounts = table_accounts(OWNER, vec![0u8; 100]);
    assert_eq!(process_instruction(&PROGRAM, &accounts, &token_ix(2, "p")).unwrap_err(), Errors::FailedToDeserialiseTableData);
}

#[test]
fn closed_table_needs_owner_signature() {
    let accounts = seat_accounts(true, false);
    assert_eq!(process_instruction(&PROGRAM, &accounts, &add_seat(USER)).unwrap_err(), Errors::Error);
    assert_eq!(process_instruction(&PROGRAM, &accounts, &[7]).unwrap_err(), Errors::Error);
    let signed = seat_accounts(true, true);
    assert!(process_instruction(&PROGRAM, &signed, &add_seat(USER)).is_ok());
    assert!(process_instruction(&PROGRAM, &signed, &[7]).is_ok());
}

#[test]
fn open_table_ignores_owner_signature() {
    for owner_signs in [false, true] {
        let accounts = seat_accounts(false, owner_signs);
        assert!(process_instruction(&PROGRAM, &accounts, &add_seat(USER)).is_ok());
        assert!(process_instruction(&PROGRAM, &accounts, &[7]).is_ok());
    }
}

#[test]
fn seat_ops_check_accounts() {
    let mut accounts = seat_accounts(false, false);
    accounts[4].key = USER;
    assert_eq!(process_instruction(&PROGRAM, &accounts, &[7]).unwrap_err(), Errors::BadSeatAccount);
    accounts.truncate(4);
    assert_eq!(process_instruction(&PROGRAM, &accounts, &[7]).unwrap_err(), Errors::BadSeatAccount);
    let mut accounts = seat_accounts(false, false);
    accounts[3].key = USER;
    assert_eq!(process_instruction(&PROGRAM, &accounts, &[7]).unwrap_err(), Errors::BadTableAccount);
    let mut accounts = seat_accounts(false, false);
    accounts[3].data = vec![0u8; 10];
    assert_eq!(process_instruction(&PROGRAM, &accounts, &[7]).unwrap_err(), Errors::Error);
}

#[test]
fn table_seat_lifecycle() {
    let channel_key = Key { bytes: [42u8; 32] };
    let table = table_of(&OWNER);
    let seat = seat_of(&table, &USER);
    let mut owner_view = table_accounts(OWNER, vec![]);

    let e = process_instruction(&PROGRAM, &owner_view, &init_table(false)).unwrap();
    apply(&mut owner_view, e);
    let e = process_instruction(&PROGRAM, &owner_view, &token_ix(2, "peer1:1234")).unwrap();
    apply(&mut owner_view, e);
    let t = TableData::from_bytes(&owner_view[2].data).unwrap();
    assert_eq!(&t.bootstrap[..11], b";peer1:1234");
    assert!(t.bootstrap[11..].iter().all(|b| *b == 0));
    assert_eq!(
        process_instruction(&PROGRAM, &owner_view, &token_ix(2, "peer1:1234")).unwrap_err(),
        Errors::EntryAlreadyExists
    );

    let mut user_view = vec![
        acc(USER, true, vec![]),
        acc(PROGRAM, false, vec![]),
        acc(OWNER, false, vec![]),
        acc(table, false, owner_view[2].data.clone()),
        acc(seat, false, vec![]),
    ];
    let e = process_instruction(&PROGRAM, &user_view, &add_seat(channel_key)).unwrap();
    apply(&mut user_view, e);
    assert_eq!(user_view[4].data, channel_key.bytes.to_vec());

    // The table is closed by deleting it and creating it again.
    let e = process_instruction(&PROGRAM, &owner_view, &[1]).unwrap();
    apply(&mut owner_view, e);
    let e = process_instruction(&PROGRAM, &owner_view, &init_table(true)).unwrap();
    apply(&mut owner_view, e);
    user_view[3].data = owner_view[2].data.clone();

    assert_eq!(process_instruction(&PROGRAM, &user_view, &[7]).unwrap_err(), Errors::Error);
    user_view[2].is_signer = true;
    match process_instruction(&PROGRAM, &user_view, &[7]).unwrap() {
        Effect::Close { account, refund } => {
            assert_eq!(user_view[account].key, seat);
            assert_eq!(user_view[refund].key, USER);
        }
        other => panic!("unexpected {:?}", other),
    }
}
