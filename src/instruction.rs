use crate::accounts::Key;
use vstd::prelude::*;

verus! {

/// The failures an invocation can end with, in the order in which they are
/// detected.
#[derive(Clone, Copy, Debug, PartialEq, Eq)]
pub enum Errors {
    MissingBaseAccounts,
    Account0MustBeSigner,
    Account1MustBeProgramID,
    FailedToDeserialiseInstruction,
    BadTableAccount,
    BadSeatAccount,
    FailedToDeserialiseTableData,
    EntryAlreadyExists,
    EntryDoesntExist,
    NotAllowed,
    Error,
    BufferOverflow,
}

impl Errors {
    /// The numeric code of this failure, as the host reports it.
    pub fn code(&self) -> (r: u32)
        ensures
            r == self.spec_code(),
    {
        match self {
            Errors::MissingBaseAccounts => 0,
            Errors::Account0MustBeSigner => 1,
            Errors::Account1MustBeProgramID => 2,
            Errors::FailedToDeserialiseInstruction => 3,
            Errors::BadTableAccount => 4,
            Errors::BadSeatAccount => 5,
            Errors::FailedToDeserialiseTableData => 6,
            Errors::EntryAlreadyExists => 7,
            Errors::EntryDoesntExist => 8,
            Errors::NotAllowed => 9,
            Errors::Error => 10,
            Errors::BufferOverflow => 11,
        }
    }

    pub open spec fn spec_code(&self) -> u32 {
        match self {
            Errors::MissingBaseAccounts => 0,
            Errors::Account0MustBeSigner => 1,
            Errors::Account1MustBeProgramID => 2,
            Errors::FailedToDeserialiseInstruction => 3,
            Errors::BadTableAccount => 4,
            Errors::BadSeatAccount => 5,
            Errors::FailedToDeserialiseTableData => 6,
            Errors::EntryAlreadyExists => 7,
            Errors::EntryDoesntExist => 8,
            Errors::NotAllowed => 9,
            Errors::Error => 10,
            Errors::BufferOverflow => 11,
        }
    }
}

/// Arguments of `InitTable`; of these only `closed` decides anything.
#[derive(Clone, Copy, Debug, PartialEq, Eq)]
pub struct InitTableArgs {
    pub channels_len: u32,
    pub servers_len: u32,
    pub authority: Key,
    pub closed: bool,
}

#[derive(Clone, Copy, Debug, PartialEq, Eq)]
pub struct AddBootstrapArgs {
    pub bootstrap: [u8; 128],
}

#[derive(Clone, Copy, Debug, PartialEq, Eq)]
pub struct RemoveBootstrapArgs {
    pub bootstrap: [u8; 128],
}

#[derive(Clone, Copy, Debug, PartialEq, Eq)]
pub struct AddChannelArgs {
    pub channel: [u8; 128],
}

#[derive(Clone, Copy, Debug, PartialEq, Eq)]
pub struct RemoveChannelArgs {
    pub channel: [u8; 128],
}

#[derive(Clone, Copy, Debug, PartialEq, Eq)]
pub struct AddSeatArgs {
    pub channel_key: Key,
}

/// An instruction: a tag byte (the variant's position, from 0) followed by
/// the variant's fields in order, integers little-endian, a flag as 0 or 1.
#[derive(Clone, Copy, Debug, PartialEq, Eq)]
pub enum RoundNetInstruction {
    InitTable(InitTableArgs),
    DeleteTable,
    AddBootstrap(AddBootstrapArgs),
    RemoveBootstrap(RemoveBootstrapArgs),
    AddChannelArgs(AddChannelArgs),
    RemoveChannelArgs(RemoveChannelArgs),
    AddSeat(AddSeatArgs),
    RemoveSeat,
}

/// Bytes of an instruction's fields, by tag.
pub open spec fn payload_len(tag: u8) -> int {
    if tag == 0 {
        41
    } else if tag == 2 || tag == 3 || tag == 4 || tag == 5 {
        128
    } else if tag == 6 {
        32
    } else {
        0
    }
}

/// The bytes are exactly one instruction.
pub open spec fn well_formed(b: Seq<u8>) -> bool {
    &&& b.len() >= 1
    &&& b[0] < 8
    &&& b.len() == 1 + payload_len(b[0])
    &&& b[0] == 0 ==> b[41] <= 1
}

/// The little-endian value of four bytes.
pub open spec fn le_u32(b: Seq<u8>) -> int {
    b[0] + 256 * b[1] + 65536 * b[2] + 16777216 * b[3]
}

pub open spec fn token_at(b: Seq<u8>) -> Seq<u8> {
    b.subrange(1, 129)
}

impl RoundNetInstruction {
    /// The instruction that the bytes `b` hold, field by field.
    pub open spec fn decodes_from(&self, b: Seq<u8>) -> bool {
        match self {
            RoundNetInstruction::InitTable(a) => {
                &&& b[0] == 0
                &&& a.channels_len as int == le_u32(b.subrange(1, 5))
                &&& a.servers_len as int == le_u32(b.subrange(5, 9))
                &&& a.authority@ == b.subrange(9, 41)
                &&& a.closed == (b[41] == 1)
            },
            RoundNetInstruction::DeleteTable => b[0] == 1,
            RoundNetInstruction::AddBootstrap(a) => b[0] == 2 && a.bootstrap@ == token_at(b),
            RoundNetInstruction::RemoveBootstrap(a) => b[0] == 3 && a.bootstrap@ == token_at(b),
            RoundNetInstruction::AddChannelArgs(a) => b[0] == 4 && a.channel@ == token_at(b),
            RoundNetInstruction::RemoveChannelArgs(a) => b[0] == 5 && a.channel@ == token_at(b),
            RoundNetInstruction::AddSeat(a) => b[0] == 6 && a.channel_key@ == b.subrange(1, 33),
            RoundNetInstruction::RemoveSeat => b[0] == 7,
        }
    }

    /// The instruction held in `input`, which must be exactly one instruction.
    pub fn from_bytes(input: &[u8]) -> (r: Option<RoundNetInstruction>)
        ensures
            r is Some <==> well_formed(input@),
            r matches Some(ix) ==> ix.decodes_from(input@),
    {
        if input.len() == 0 {
            return None;
        }
        let tag = input[0];
        if tag == 0 {
            if input.len() != 42 || input[41] > 1 {
                return None;
            }
            let channels_len = read_u32(input, 1);
            let servers_len = read_u32(input, 5);
            let authority = Key::read(input, 9);
            Some(
                RoundNetInstruction::InitTable(
                    InitTableArgs { channels_len, servers_len, authority, closed: input[41] == 1 },
                ),
            )
        } else if tag == 1 || tag == 7 {
            if input.len() != 1 {
                return None;
            }
            if tag == 1 {
                Some(RoundNetInstruction::DeleteTable)
            } else {
                Some(RoundNetInstruction::RemoveSeat)
            }
        } else if tag <= 5 {
            if input.len() != 129 {
                return None;
            }
            let token = read_token(input);
            if tag == 2 {
                Some(RoundNetInstruction::AddBootstrap(AddBootstrapArgs { bootstrap: token }))
            } else if tag == 3 {
                Some(RoundNetInstruction::RemoveBootstrap(RemoveBootstrapArgs { bootstrap: token }))
            } else if tag == 4 {
                Some(RoundNetInstruction::AddChannelArgs(AddChannelArgs { channel: token }))
            } else {
                Some(RoundNetInstruction::RemoveChannelArgs(RemoveChannelArgs { channel: token }))
            }
        } else if tag == 6 {
            if input.len() != 33 {
                return None;
            }
            Some(RoundNetInstruction::AddSeat(AddSeatArgs { channel_key: Key::read(input, 1) }))
        } else {
            None
        }
    }
}

fn read_u32(data: &[u8], at: usize) -> (r: u32)
    requires
        at + 4 <= data@.len(),
    ensures
        r as int == le_u32(data@.subrange(at as int, at + 4)),
{
    data[at] as u32 + 256 * (data[at + 1] as u32) + 65536 * (data[at + 2] as u32) + 16777216 * (
    data[at + 3] as u32)
}

fn read_token(data: &[u8]) -> (r: [u8; 128])
    requires
        data@.len() >= 129,
    ensures
        r@ == token_at(data@),
{
    let mut r = [0u8; 128];
    let mut i: usize = 0;
    while i < 128
        invariant
            i <= 128,
            data@.len() >= 129,
            r@.len() == 128,
            forall|j: int| 0 <= j < i ==> r@[j] == data@[1 + j],
        decreases 128 - i,
    {
        r[i] = data[1 + i];
        i = i + 1;
    }
    assert(r@ =~= token_at(data@));
    r
}

} // verus!
