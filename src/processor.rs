//! The instruction state machine: from the accounts handed in and the
//! instruction bytes to the one change the host is to make, or a failure.
use crate::accounts::{
    decode_table, derive_seat_seed, derive_table_seed, derived, encode_table, seat_seeds,
    table_seeds, zeros, Key, SeatData, TableData, TableView, SEAT_DATA_SIZE, SET_REGION_SIZE,
    TABLE_DATA_SIZE,
};
use crate::instruction::{
    token_at, well_formed, AddSeatArgs, Errors, InitTableArgs, RoundNetInstruction,
};
use crate::set_buffer::{spec_add, spec_remove, str_buf_add, str_buf_rm};
use vstd::prelude::*;

verus! {

/// An account as the host hands it in: its address, whether it signed, and
/// its data.
#[derive(Clone, Debug)]
pub struct AccountState {
    pub key: Key,
    pub is_signer: bool,
    pub data: Vec<u8>,
}

/// The change an instruction makes; accounts are named by their position in
/// the list handed in.
#[derive(Clone, Debug)]
pub enum Effect {
    /// Allocate `space` bytes at `account`, signing with `seeds`, fund it from
    /// the signer (account 0) and give it to the program, then write `data`.
    Create { account: usize, seeds: Vec<Vec<u8>>, space: u64, data: Vec<u8> },
    /// Replace the data of `account` with `data`.
    Write { account: usize, data: Vec<u8> },
    /// Move every lamport of `account` to `refund`.
    Close { account: usize, refund: usize },
}

pub ghost enum EffectView {
    Create { account: int, seeds: Seq<Seq<u8>>, space: int, data: Seq<u8> },
    Write { account: int, data: Seq<u8> },
    Close { account: int, refund: int },
}

impl View for Effect {
    type V = EffectView;

    open spec fn view(&self) -> EffectView {
        match self {
            Effect::Create { account, seeds, space, data } => EffectView::Create {
                account: *account as int,
                seeds: seeds.deep_view(),
                space: *space as int,
                data: data@,
            },
            Effect::Write { account, data } => EffectView::Write {
                account: *account as int,
                data: data@,
            },
            Effect::Close { account, refund } => EffectView::Close {
                account: *account as int,
                refund: *refund as int,
            },
        }
    }
}

pub open spec fn result_view(r: Result<Effect, Errors>) -> Result<EffectView, Errors> {
    match r {
        Ok(e) => Ok(e@),
        Err(x) => Err(x),
    }
}

/// Account `at` is the table of `owner`; its seeds.
pub open spec fn check_table(
    accs: Seq<AccountState>,
    at: int,
    owner: Seq<u8>,
    program: Seq<u8>,
) -> Result<Seq<Seq<u8>>, Errors> {
    if at >= accs.len() {
        Err(Errors::BadTableAccount)
    } else {
        match derived(table_seeds(owner), program) {
            Some((s, k)) => if k == accs[at].key@ {
                Ok(s)
            } else {
                Err(Errors::BadTableAccount)
            },
            None => Err(Errors::BadTableAccount),
        }
    }
}

/// Account `at` is the seat of `user` at `table`; its seeds.
pub open spec fn check_seat(
    accs: Seq<AccountState>,
    at: int,
    table: Seq<u8>,
    user: Seq<u8>,
    program: Seq<u8>,
) -> Result<Seq<Seq<u8>>, Errors> {
    if at >= accs.len() {
        Err(Errors::BadSeatAccount)
    } else {
        match derived(seat_seeds(table, user), program) {
            Some((s, k)) => if k == accs[at].key@ {
                Ok(s)
            } else {
                Err(Errors::BadSeatAccount)
            },
            None => Err(Errors::BadSeatAccount),
        }
    }
}

/// Adding to (or removing from) the set region of the table in account 2
/// that starts at `start`.
pub open spec fn spec_update_set(
    accs: Seq<AccountState>,
    start: int,
    token: Seq<u8>,
    add: bool,
) -> Result<EffectView, Errors> {
    let data = accs[2].data@;
    if data.len() < 2 * SET_REGION_SIZE {
        Err(Errors::FailedToDeserialiseTableData)
    } else {
        let region = data.subrange(start, start + 512);
        let (res, after) = if add {
            spec_add(region, token)
        } else {
            spec_remove(region, token)
        };
        match res {
            Err(e) => Err(e),
            Ok(_) => Ok(
                EffectView::Write {
                    account: 2,
                    data: data.subrange(0, start) + after + data.subrange(
                        start + 512,
                        data.len() as int,
                    ),
                },
            ),
        }
    }
}

/// The checks that `AddSeat` and `RemoveSeat` share: account 2 is the table
/// owner, 3 the owner's table, 4 the signer's seat at it; a closed table
/// needs the owner's signature. The seat's seeds.
pub open spec fn spec_seat_gate(accs: Seq<AccountState>, program: Seq<u8>) -> Result<
    Seq<Seq<u8>>,
    Errors,
> {
    if accs.len() < 3 {
        Err(Errors::BadTableAccount)
    } else {
        match check_table(accs, 3, accs[2].key@, program) {
            Err(e) => Err(e),
            Ok(_) => match check_seat(accs, 4, accs[3].key@, accs[0].key@, program) {
                Err(e) => Err(e),
                Ok(seeds) => match decode_table(accs[3].data@) {
                    None => Err(Errors::Error),
                    Some(t) => if t.closed && !accs[2].is_signer {
                        Err(Errors::Error)
                    } else {
                        Ok(seeds)
                    },
                },
            },
        }
    }
}

/// `InitTable`: account 2 is the signer's table and holds no data yet; it is
/// created with both sets empty.
pub open spec fn spec_init_table(program: Seq<u8>, accs: Seq<AccountState>, closed: bool) -> Result<
    EffectView,
    Errors,
> {
    match check_table(accs, 2, accs[0].key@, program) {
        Err(e) => Err(e),
        Ok(seeds) => if accs[2].data@.len() > 0 {
            Err(Errors::Error)
        } else {
            Ok(
                EffectView::Create {
                    account: 2,
                    seeds,
                    space: TABLE_DATA_SIZE as int,
                    data: encode_table(
                        TableView { bootstrap: zeros(512), channels: zeros(512), closed },
                    ),
                },
            )
        },
    }
}

/// `DeleteTable`: account 2 is the signer's table and holds data; its
/// balance goes back to the signer.
pub open spec fn spec_delete_table(program: Seq<u8>, accs: Seq<AccountState>) -> Result<
    EffectView,
    Errors,
> {
    match check_table(accs, 2, accs[0].key@, program) {
        Err(e) => Err(e),
        Ok(_) => if accs[2].data@.len() == 0 {
            Err(Errors::Error)
        } else {
            Ok(EffectView::Close { account: 2, refund: 0 })
        },
    }
}

/// The bootstrap and channel instructions: account 2 is the signer's table.
pub open spec fn spec_set_op(
    program: Seq<u8>,
    accs: Seq<AccountState>,
    start: int,
    token: Seq<u8>,
    add: bool,
) -> Result<EffectView, Errors> {
    match check_table(accs, 2, accs[0].key@, program) {
        Err(e) => Err(e),
        Ok(_) => spec_update_set(accs, start, token, add),
    }
}

/// `AddSeat`: the seat is created holding the channel key.
pub open spec fn spec_add_seat(program: Seq<u8>, accs: Seq<AccountState>, channel_key: Seq<u8>) -> Result<
    EffectView,
    Errors,
> {
    match spec_seat_gate(accs, program) {
        Err(e) => Err(e),
        Ok(seeds) => Ok(
            EffectView::Create {
                account: 4,
                seeds,
                space: SEAT_DATA_SIZE as int,
                data: channel_key,
            },
        ),
    }
}

/// `RemoveSeat`: the seat's balance goes back to the signer.
pub open spec fn spec_remove_seat(program: Seq<u8>, accs: Seq<AccountState>) -> Result<
    EffectView,
    Errors,
> {
    match spec_seat_gate(accs, program) {
        Err(e) => Err(e),
        Ok(_) => Ok(EffectView::Close { account: 4, refund: 0 }),
    }
}

/// What an instruction does, from the program's address, the accounts handed
/// in (the signer, the program, then those of the instruction) and its bytes.
pub open spec fn spec_process(program: Seq<u8>, accs: Seq<AccountState>, input: Seq<u8>) -> Result<
    EffectView,
    Errors,
> {
    if accs.len() < 2 {
        Err(Errors::MissingBaseAccounts)
    } else if !accs[0].is_signer {
        Err(Errors::Account0MustBeSigner)
    } else if accs[1].key@ != program {
        Err(Errors::Account1MustBeProgramID)
    } else if !well_formed(input) {
        Err(Errors::FailedToDeserialiseInstruction)
    } else {
        let tag = input[0];
        if tag == 0 {
            spec_init_table(program, accs, input[41] == 1)
        } else if tag == 1 {
            spec_delete_table(program, accs)
        } else if tag == 6 {
            spec_add_seat(program, accs, input.subrange(1, 33))
        } else if tag == 7 {
            spec_remove_seat(program, accs)
        } else {
            spec_set_op(
                program,
                accs,
                if tag == 2 || tag == 3 {
                    0
                } else {
                    512
                },
                token_at(input),
                tag == 2 || tag == 4,
            )
        }
    }
}

/// Every invocation first checks the base accounts, whatever the instruction:
/// fewer than two accounts, an account 0 that did not sign, or an account 1
/// that is not the program fail with their own errors, in that order.
pub proof fn lemma_base_account_gate(program: Seq<u8>, accs: Seq<AccountState>, input: Seq<u8>)
    ensures
        accs.len() < 2 ==> spec_process(program, accs, input) == Err::<EffectView, Errors>(
            Errors::MissingBaseAccounts,
        ),
        accs.len() >= 2 && !accs[0].is_signer ==> spec_process(program, accs, input) == Err::<
            EffectView,
            Errors,
        >(Errors::Account0MustBeSigner),
        accs.len() >= 2 && accs[0].is_signer && accs[1].key@ != program ==> spec_process(
            program,
            accs,
            input,
        ) == Err::<EffectView, Errors>(Errors::Account1MustBeProgramID),
{
}

/// `InitTable` only ever creates the table at the address derived for the
/// signer: on any other account it fails with `BadTableAccount`.
pub proof fn lemma_init_table_needs_derived_address(
    program: Seq<u8>,
    accs: Seq<AccountState>,
    input: Seq<u8>,
)
    requires
        accs.len() >= 3,
        accs[0].is_signer,
        accs[1].key@ == program,
        well_formed(input),
        input[0] == 0,
    ensures
        !(derived(table_seeds(accs[0].key@), program) matches Some((_, k)) && k == accs[2].key@)
            ==> spec_process(program, accs, input) == Err::<EffectView, Errors>(
            Errors::BadTableAccount,
        ),
        spec_process(program, accs, input) is Ok ==> (derived(
            table_seeds(accs[0].key@),
            program,
        ) matches Some((_, k)) && k == accs[2].key@),
{
}

/// Seat changes at a closed table need the table owner's signature; at an
/// open table they go through whether or not the owner signed.
pub proof fn lemma_closed_table_gate(
    program: Seq<u8>,
    accs: Seq<AccountState>,
    input: Seq<u8>,
    table: TableView,
)
    requires
        accs.len() >= 5,
        accs[0].is_signer,
        accs[1].key@ == program,
        well_formed(input),
        input[0] == 6 || input[0] == 7,
        check_table(accs, 3, accs[2].key@, program) is Ok,
        check_seat(accs, 4, accs[3].key@, accs[0].key@, program) is Ok,
        decode_table(accs[3].data@) == Some(table),
    ensures
        table.closed && !accs[2].is_signer ==> spec_process(program, accs, input) == Err::<
            EffectView,
            Errors,
        >(Errors::Error),
        table.closed && accs[2].is_signer ==> spec_process(program, accs, input) is Ok,
        !table.closed ==> spec_process(program, accs, input) is Ok,
{
}

fn check_table_account(accounts: &Vec<AccountState>, at: usize, owner: &Key, program: &Key) -> (r:
    Result<Vec<Vec<u8>>, Errors>)
    ensures
        match r {
            Ok(s) => check_table(accounts@, at as int, owner@, program@) == Ok::<
                Seq<Seq<u8>>,
                Errors,
            >(s.deep_view()),
            Err(e) => check_table(accounts@, at as int, owner@, program@) == Err::<
                Seq<Seq<u8>>,
                Errors,
            >(e),
        },
{
    if at >= accounts.len() {
        return Err(Errors::BadTableAccount);
    }
    match derive_table_seed(owner, program) {
        Some((seeds, pda)) => if pda.same(&accounts[at].key) {
            Ok(seeds)
        } else {
            Err(Errors::BadTableAccount)
        },
        None => Err(Errors::BadTableAccount),
    }
}

fn check_seat_account(
    accounts: &Vec<AccountState>,
    at: usize,
    table: &Key,
    user: &Key,
    program: &Key,
) -> (r: Result<Vec<Vec<u8>>, Errors>)
    ensures
        match r {
            Ok(s) => check_seat(accounts@, at as int, table@, user@, program@) == Ok::<
                Seq<Seq<u8>>,
                Errors,
            >(s.deep_view()),
            Err(e) => check_seat(accounts@, at as int, table@, user@, program@) == Err::<
                Seq<Seq<u8>>,
                Errors,
            >(e),
        },
{
    if at >= accounts.len() {
        return Err(Errors::BadSeatAccount);
    }
    match derive_seat_seed(table, user, program) {
        Some((seeds, pda)) => if pda.same(&accounts[at].key) {
            Ok(seeds)
        } else {
            Err(Errors::BadSeatAccount)
        },
        None => Err(Errors::BadSeatAccount),
    }
}

/// The table's data with the set region at `start` updated.
fn update_set(accounts: &Vec<AccountState>, start: usize, token: &[u8; 128], add: bool) -> (r:
    Result<Effect, Errors>)
    requires
        accounts@.len() >= 3,
        start == 0 || start == 512,
    ensures
        result_view(r) == spec_update_set(accounts@, start as int, token@, add),
{
    let data = &accounts[2].data;
    if data.len() < 2 * SET_REGION_SIZE {
        return Err(Errors::FailedToDeserialiseTableData);
    }
    let len: usize = data.len();
    let mut region: Vec<u8> = Vec::new();
    let mut i: usize = 0;
    while i < 512
        invariant
            i <= 512,
            len == data@.len(),
            start + 512 <= data@.len(),
            region@ == data@.subrange(start as int, start + i),
        decreases 512 - i,
    {
        region.push(data[start + i]);
        i = i + 1;
        assert(region@ =~= data@.subrange(start as int, start + i));
    }
    let ghost before = region@;
    let res = if add {
        str_buf_add(region.as_mut_slice(), token)
    } else {
        str_buf_rm(region.as_mut_slice(), token)
    };
    if let Err(e) = res {
        return Err(e);
    }
    assert(region@.len() == 512) by {
        if add {
            crate::set_buffer::lemma_update_len(before, token@, true);
        } else {
            crate::set_buffer::lemma_update_len(before, token@, false);
        }
    }
    let mut out: Vec<u8> = Vec::new();
    let n: usize = data.len();
    let mut j: usize = 0;
    while j < n
        invariant
            n == data@.len(),
            start + 512 <= n,
            region@.len() == 512,
            j <= n,
            out@.len() == j,
            forall|k: int|
                0 <= k < j ==> out@[k] == (data@.subrange(0, start as int) + region@
                    + data@.subrange(start + 512, n as int))[k],
        decreases n - j,
    {
        if j >= start && j < start + 512 {
            out.push(region[j - start]);
        } else {
            out.push(data[j]);
        }
        j = j + 1;
    }
    assert(out@ =~= data@.subrange(0, start as int) + region@ + data@.subrange(
        start + 512,
        n as int,
    ));
    Ok(Effect::Write { account: 2, data: out })
}

/// The checks of `AddSeat` and `RemoveSeat`; the seat's seeds.
fn seat_gate(accounts: &Vec<AccountState>, program: &Key) -> (r: Result<Vec<Vec<u8>>, Errors>)
    requires
        accounts@.len() >= 1,
    ensures
        match r {
            Ok(s) => spec_seat_gate(accounts@, program@) == Ok::<Seq<Seq<u8>>, Errors>(
                s.deep_view(),
            ),
            Err(e) => spec_seat_gate(accounts@, program@) == Err::<Seq<Seq<u8>>, Errors>(e),
        },
{
    if accounts.len() < 3 {
        return Err(Errors::BadTableAccount);
    }
    let owner = &accounts[2];
    check_table_account(accounts, 3, &owner.key, program)?;
    let seeds = check_seat_account(accounts, 4, &accounts[3].key, &accounts[0].key, program)?;
    match TableData::from_bytes(accounts[3].data.as_slice()) {
        None => Err(Errors::Error),
        Some(t) => if t.closed && !owner.is_signer {
            Err(Errors::Error)
        } else {
            Ok(seeds)
        },
    }
}

fn init_table(program_id: &Key, accounts: &Vec<AccountState>, args: InitTableArgs) -> (r: Result<
    Effect,
    Errors,
>)
    requires
        accounts@.len() >= 1,
    ensures
        result_view(r) == spec_init_table(program_id@, accounts@, args.closed),
{
    let seeds = check_table_account(accounts, 2, &accounts[0].key, program_id)?;
    if accounts[2].data.len() > 0 {
        return Err(Errors::Error);
    }
    let table = TableData::new(args.closed);
    Ok(Effect::Create { account: 2, seeds, space: TABLE_DATA_SIZE, data: table.to_bytes() })
}

fn delete_table(program_id: &Key, accounts: &Vec<AccountState>) -> (r: Result<Effect, Errors>)
    requires
        accounts@.len() >= 1,
    ensures
        result_view(r) == spec_delete_table(program_id@, accounts@),
{
    check_table_account(accounts, 2, &accounts[0].key, program_id)?;
    if accounts[2].data.len() == 0 {
        return Err(Errors::Error);
    }
    Ok(Effect::Close { account: 2, refund: 0 })
}

fn set_op(
    program_id: &Key,
    accounts: &Vec<AccountState>,
    start: usize,
    token: &[u8; 128],
    add: bool,
) -> (r: Result<Effect, Errors>)
    requires
        accounts@.len() >= 1,
        start == 0 || start == 512,
    ensures
        result_view(r) == spec_set_op(program_id@, accounts@, start as int, token@, add),
{
    check_table_account(accounts, 2, &accounts[0].key, program_id)?;
    update_set(accounts, start, token, add)
}

fn add_seat(program_id: &Key, accounts: &Vec<AccountState>, args: AddSeatArgs) -> (r: Result<
    Effect,
    Errors,
>)
    requires
        accounts@.len() >= 1,
    ensures
        result_view(r) == spec_add_seat(program_id@, accounts@, args.channel_key@),
{
    let seeds = seat_gate(accounts, program_id)?;
    let seat = SeatData { channel_key: args.channel_key };
    Ok(Effect::Create { account: 4, seeds, space: SEAT_DATA_SIZE, data: seat.to_bytes() })
}

fn remove_seat(program_id: &Key, accounts: &Vec<AccountState>) -> (r: Result<Effect, Errors>)
    requires
        accounts@.len() >= 1,
    ensures
        result_view(r) == spec_remove_seat(program_id@, accounts@),
{
    seat_gate(accounts, program_id)?;
    Ok(Effect::Close { account: 4, refund: 0 })
}

/// Decides what the instruction in `input` does, given the program's address
/// and the accounts handed in: account 0 is the signer, account 1 the program,
/// and those after them the instruction's own.
pub fn process_instruction(program_id: &Key, accounts: &Vec<AccountState>, input: &[u8]) -> (r:
    Result<Effect, Errors>)
    ensures
        result_view(r) == spec_process(program_id@, accounts@, input@),
{
    if accounts.len() < 2 {
        return Err(Errors::MissingBaseAccounts);
    }
    if !accounts[0].is_signer {
        return Err(Errors::Account0MustBeSigner);
    }
    if !accounts[1].key.same(program_id) {
        return Err(Errors::Account1MustBeProgramID);
    }
    let ix = match RoundNetInstruction::from_bytes(input) {
        Some(ix) => ix,
        None => {
            return Err(Errors::FailedToDeserialiseInstruction);
        },
    };
    match ix {
        RoundNetInstruction::InitTable(args) => init_table(program_id, accounts, args),
        RoundNetInstruction::DeleteTable => delete_table(program_id, accounts),
        RoundNetInstruction::AddBootstrap(args) => set_op(
            program_id,
            accounts,
            0,
            &args.bootstrap,
            true,
        ),
        RoundNetInstruction::RemoveBootstrap(args) => set_op(
            program_id,
            accounts,
            0,
            &args.bootstrap,
            false,
        ),
        RoundNetInstruction::AddChannelArgs(args) => set_op(
            program_id,
            accounts,
            512,
            &args.channel,
            true,
        ),
        RoundNetInstruction::RemoveChannelArgs(args) => set_op(
            program_id,
            accounts,
            512,
            &args.channel,
            false,
        ),
        RoundNetInstruction::AddSeat(args) => add_seat(program_id, accounts, args),
        RoundNetInstruction::RemoveSeat => remove_seat(program_id, accounts),
    }
}

} // verus!
