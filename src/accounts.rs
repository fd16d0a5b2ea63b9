//! Account addresses and the layouts of the records stored at them.
use vstd::prelude::*;

verus! {

/// A 32-byte account address.
#[derive(Clone, Copy, Debug, PartialEq, Eq)]
pub struct Key {
    pub bytes: [u8; 32],
}

impl View for Key {
    type V = Seq<u8>;

    open spec fn view(&self) -> Seq<u8> {
        self.bytes@
    }
}

impl Key {
    /// Whether the two addresses are the same.
    pub fn same(&self, other: &Key) -> (r: bool)
        ensures
            r == (self@ == other@),
    {
        let mut i: usize = 0;
        while i < 32
            invariant
                i <= 32,
                self@.len() == 32,
                other@.len() == 32,
                forall|j: int| 0 <= j < i ==> self@[j] == other@[j],
            decreases 32 - i,
        {
            if self.bytes[i] != other.bytes[i] {
                return false;
            }
            i = i + 1;
        }
        assert(self@ =~= other@);
        true
    }

    /// The address held in `data` from position `at`.
    pub fn read(data: &[u8], at: usize) -> (r: Key)
        requires
            at + 32 <= data@.len(),
        ensures
            r@ == data@.subrange(at as int, at + 32),
    {
        let n: usize = data.len();
        let mut bytes = [0u8; 32];
        let mut i: usize = 0;
        while i < 32
            invariant
                i <= 32,
                n == data@.len(),
                at + 32 <= data@.len(),
                bytes@.len() == 32,
                forall|j: int| 0 <= j < i ==> bytes@[j] == data@[at + j],
            decreases 32 - i,
        {
            bytes[i] = data[at + i];
            i = i + 1;
        }
        assert(bytes@ =~= data@.subrange(at as int, at + 32));
        Key { bytes }
    }

    /// The address's bytes.
    pub fn to_vec(&self) -> (r: Vec<u8>)
        ensures
            r@ == self@,
    {
        let mut r: Vec<u8> = Vec::new();
        let mut i: usize = 0;
        while i < 32
            invariant
                i <= 32,
                self@.len() == 32,
                r@ == self@.subrange(0, i as int),
            decreases 32 - i,
        {
            r.push(self.bytes[i]);
            i = i + 1;
            assert(r@ =~= self@.subrange(0, i as int));
        }
        assert(self@.subrange(0, 32) =~= self@);
        r
    }
}

/// The program-derived address of a seed list under a program, with its bump
/// seed, as the address space computes it; `None` where no bump gives one.
pub uninterp spec fn program_address(seeds: Seq<Seq<u8>>, program: Seq<u8>) -> Option<(Seq<u8>, u8)>;

pub open spec fn address_view(r: Option<(Key, u8)>) -> Option<(Seq<u8>, u8)> {
    match r {
        Some((k, b)) => Some((k@, b)),
        None => None,
    }
}

/// Relies on solana_program's `Pubkey::try_find_program_address`: the
/// canonical program-derived address of `seeds` under `program` and its bump
/// seed, or `None`; the result depends on the arguments alone.
#[verifier::external_body]
fn find_program_address(seeds: &Vec<Vec<u8>>, program: &Key) -> (r: Option<(Key, u8)>)
    ensures
        address_view(r) == program_address(seeds.deep_view(), program@),
{
    let refs: Vec<&[u8]> = seeds.iter().map(|s| s.as_slice()).collect();
    let program = solana_program::pubkey::Pubkey::new_from_array(program.bytes);
    solana_program::pubkey::Pubkey::try_find_program_address(&refs, &program).map(
        |(k, b)| (Key { bytes: k.to_bytes() }, b),
    )
}

/// The seed list completed with the bump seed, and the address it gives.
pub open spec fn derived(seeds: Seq<Seq<u8>>, program: Seq<u8>) -> Option<(Seq<Seq<u8>>, Seq<u8>)> {
    match program_address(seeds, program) {
        Some((k, b)) => Some((seeds.push(seq![b]), k)),
        None => None,
    }
}

pub open spec fn derived_view(r: Option<(Vec<Vec<u8>>, Key)>) -> Option<(Seq<Seq<u8>>, Seq<u8>)> {
    match r {
        Some((s, k)) => Some((s.deep_view(), k@)),
        None => None,
    }
}

pub open spec fn channels_tag() -> Seq<u8> {
    seq![0x63u8, 0x68, 0x61, 0x6e, 0x6e, 0x65, 0x6c, 0x73]
}

pub open spec fn servers_tag() -> Seq<u8> {
    seq![0x73u8, 0x65, 0x72, 0x76, 0x65, 0x72, 0x73]
}

pub open spec fn table_seeds(owner: Seq<u8>) -> Seq<Seq<u8>> {
    seq![owner]
}

pub open spec fn table_channels_seeds(owner: Seq<u8>) -> Seq<Seq<u8>> {
    seq![channels_tag(), owner]
}

pub open spec fn table_servers_seeds(owner: Seq<u8>) -> Seq<Seq<u8>> {
    seq![servers_tag(), owner]
}

pub open spec fn seat_seeds(table: Seq<u8>, user: Seq<u8>) -> Seq<Seq<u8>> {
    seq![table, user]
}

proof fn lemma_bytes_deep_view(v: Vec<u8>)
    ensures
        v.deep_view() == v@,
{
    assert(v.deep_view() =~= v@);
}

fn with_bump(seeds: Vec<Vec<u8>>, program: &Key) -> (r: Option<(Vec<Vec<u8>>, Key)>)
    ensures
        derived_view(r) == derived(seeds.deep_view(), program@),
{
    match find_program_address(&seeds, program) {
        Some((k, b)) => {
            let mut seeds = seeds;
            let ghost before = seeds.deep_view();
            let bump = vec![b];
            proof {
                lemma_bytes_deep_view(bump);
                assert(bump@ =~= seq![b]);
            }
            seeds.push(bump);
            assert(seeds.deep_view() =~= before.push(seq![b]));
            Some((seeds, k))
        },
        None => None,
    }
}

/// The seeds and address of the table kept for `owner`.
pub fn derive_table_seed(owner: &Key, program_id: &Key) -> (r: Option<(Vec<Vec<u8>>, Key)>)
    ensures
        derived_view(r) == derived(table_seeds(owner@), program_id@),
{
    let mut seeds: Vec<Vec<u8>> = Vec::new();
    let part1 = owner.to_vec();
    proof {
        lemma_bytes_deep_view(part1);
    }
    seeds.push(part1);
    assert(seeds.deep_view() =~= table_seeds(owner@));
    with_bump(seeds, program_id)
}

/// The seeds and address of the channel list kept for `owner`.
pub fn derive_table_channels_seed(owner: &Key, program_id: &Key) -> (r: Option<(Vec<Vec<u8>>, Key)>)
    ensures
        derived_view(r) == derived(table_channels_seeds(owner@), program_id@),
{
    let mut seeds: Vec<Vec<u8>> = Vec::new();
    let part2 = vec![0x63u8, 0x68, 0x61, 0x6e, 0x6e, 0x65, 0x6c, 0x73];
    proof {
        lemma_bytes_deep_view(part2);
    }
    seeds.push(part2);
    let part3 = owner.to_vec();
    proof {
        lemma_bytes_deep_view(part3);
    }
    seeds.push(part3);
    assert(seeds.deep_view() =~= table_channels_seeds(owner@));
    with_bump(seeds, program_id)
}

/// The seeds and address of the server list kept for `owner`.
pub fn derive_table_servers_seed(owner: &Key, program_id: &Key) -> (r: Option<(Vec<Vec<u8>>, Key)>)
    ensures
        derived_view(r) == derived(table_servers_seeds(owner@), program_id@),
{
    let mut seeds: Vec<Vec<u8>> = Vec::new();
    let part4 = vec![0x73u8, 0x65, 0x72, 0x76, 0x65, 0x72, 0x73];
    proof {
        lemma_bytes_deep_view(part4);
    }
    seeds.push(part4);
    let part5 = owner.to_vec();
    proof {
        lemma_bytes_deep_view(part5);
    }
    seeds.push(part5);
    assert(seeds.deep_view() =~= table_servers_seeds(owner@));
    with_bump(seeds, program_id)
}

/// The seeds and address of the seat that `user` holds at `table`.
pub fn derive_seat_seed(table: &Key, user: &Key, program_id: &Key) -> (r: Option<(Vec<Vec<u8>>, Key)>)
    ensures
        derived_view(r) == derived(seat_seeds(table@, user@), program_id@),
{
    let mut seeds: Vec<Vec<u8>> = Vec::new();
    let part6 = table.to_vec();
    proof {
        lemma_bytes_deep_view(part6);
    }
    seeds.push(part6);
    let part7 = user.to_vec();
    proof {
        lemma_bytes_deep_view(part7);
    }
    seeds.push(part7);
    assert(seeds.deep_view() =~= seat_seeds(table@, user@));
    with_bump(seeds, program_id)
}

/// The table derivation is a function of the owner and the program alone, and
/// distinct owners never share the seed material that is hashed into the
/// address; whether two such hashes can meet is up to the address space.
pub proof fn lemma_table_seed_deterministic_injective(o1: Key, o2: Key, program: Key)
    ensures
        o1@ == o2@ ==> derived(table_seeds(o1@), program@) == derived(table_seeds(o2@), program@),
        o1@ != o2@ ==> table_seeds(o1@) != table_seeds(o2@),
        o1@ != o2@ ==> match (derived(table_seeds(o1@), program@), derived(table_seeds(o2@), program@)) {
            (Some((s1, _)), Some((s2, _))) => s1 != s2,
            _ => true,
        },
{
    if o1@ != o2@ {
        assert(table_seeds(o1@)[0] != table_seeds(o2@)[0]);
        match (derived(table_seeds(o1@), program@), derived(table_seeds(o2@), program@)) {
            (Some((s1, _)), Some((s2, _))) => {
                assert(s1[0] != s2[0]);
            },
            _ => {},
        }
    }
}

/// Bytes of a table record: two set regions and the closed flag.
pub const TABLE_DATA_SIZE: u64 = 1025;

/// Bytes of a seat record: the channel key.
pub const SEAT_DATA_SIZE: u64 = 32;

/// Bytes of each set region of a table record.
pub const SET_REGION_SIZE: usize = 512;

/// A table: its bootstrap-peer set, its channel set, and whether seat
/// changes need the owner's signature.
#[derive(Clone, Copy, Debug, PartialEq, Eq)]
pub struct TableData {
    pub bootstrap: [u8; 512],
    pub channels: [u8; 512],
    pub closed: bool,
}

pub ghost struct TableView {
    pub bootstrap: Seq<u8>,
    pub channels: Seq<u8>,
    pub closed: bool,
}

impl View for TableData {
    type V = TableView;

    open spec fn view(&self) -> TableView {
        TableView { bootstrap: self.bootstrap@, channels: self.channels@, closed: self.closed }
    }
}

pub open spec fn zeros(n: nat) -> Seq<u8> {
    Seq::new(n, |i: int| 0u8)
}

/// The record of a table: bootstrap region, channel region, closed flag.
pub open spec fn encode_table(t: TableView) -> Seq<u8> {
    t.bootstrap + t.channels + seq![if t.closed { 1u8 } else { 0u8 }]
}

/// The table whose record the data begins with; a flag byte other than 0 or
/// 1 is no table.
pub open spec fn decode_table(d: Seq<u8>) -> Option<TableView> {
    if d.len() >= TABLE_DATA_SIZE && d[1024] <= 1 {
        Some(
            TableView {
                bootstrap: d.subrange(0, 512),
                channels: d.subrange(512, 1024),
                closed: d[1024] == 1,
            },
        )
    } else {
        None
    }
}

impl TableData {
    /// A table with both sets empty.
    pub fn new(closed: bool) -> (r: TableData)
        ensures
            r@ == (TableView { bootstrap: zeros(512), channels: zeros(512), closed }),
    {
        let r = TableData { bootstrap: [0u8; 512], channels: [0u8; 512], closed };
        assert(r.bootstrap@ =~= zeros(512));
        assert(r.channels@ =~= zeros(512));
        r
    }

    /// The table's record.
    pub fn to_bytes(&self) -> (r: Vec<u8>)
        ensures
            r@ == encode_table(self@),
    {
        let mut r: Vec<u8> = Vec::new();
        let mut i: usize = 0;
        while i < 512
            invariant
                i <= 512,
                self.bootstrap@.len() == 512,
                r@ == self.bootstrap@.subrange(0, i as int),
            decreases 512 - i,
        {
            r.push(self.bootstrap[i]);
            i = i + 1;
            assert(r@ =~= self.bootstrap@.subrange(0, i as int));
        }
        assert(self.bootstrap@.subrange(0, 512) =~= self.bootstrap@);
        let mut i: usize = 0;
        while i < 512
            invariant
                i <= 512,
                self.channels@.len() == 512,
                self.bootstrap@.len() == 512,
                r@ == self.bootstrap@ + self.channels@.subrange(0, i as int),
            decreases 512 - i,
        {
            r.push(self.channels[i]);
            i = i + 1;
            assert(r@ =~= self.bootstrap@ + self.channels@.subrange(0, i as int));
        }
        assert(self.channels@.subrange(0, 512) =~= self.channels@);
        r.push(if self.closed { 1u8 } else { 0u8 });
        r
    }

    /// The table whose record `data` begins with.
    pub fn from_bytes(data: &[u8]) -> (r: Option<TableData>)
        ensures
            r matches Some(t) ==> decode_table(data@) == Some(t@),
            r is None ==> decode_table(data@) is None,
    {
        if data.len() < 1025 || data[1024] > 1 {
            return None;
        }
        let mut bootstrap = [0u8; 512];
        let mut channels = [0u8; 512];
        let mut i: usize = 0;
        while i < 512
            invariant
                i <= 512,
                data@.len() >= 1025,
                bootstrap@.len() == 512,
                channels@.len() == 512,
                forall|j: int| 0 <= j < i ==> bootstrap@[j] == data@[j],
                forall|j: int| 0 <= j < i ==> channels@[j] == data@[512 + j],
            decreases 512 - i,
        {
            bootstrap[i] = data[i];
            channels[i] = data[512 + i];
            i = i + 1;
        }
        let t = TableData { bootstrap, channels, closed: data[1024] == 1 };
        assert(t.bootstrap@ =~= data@.subrange(0, 512));
        assert(t.channels@ =~= data@.subrange(512, 1024));
        Some(t)
    }
}

/// A record holds two regions of 512 bytes each.
pub open spec fn table_wf(t: TableView) -> bool {
    t.bootstrap.len() == 512 && t.channels.len() == 512
}

/// Decoding the record of a table gives the same table back.
pub proof fn lemma_table_round_trip(t: TableView)
    requires
        table_wf(t),
    ensures
        decode_table(encode_table(t)) == Some(t),
{
    let d = encode_table(t);
    assert(d.subrange(0, 512) =~= t.bootstrap);
    assert(d.subrange(512, 1024) =~= t.channels);
}

/// A seat: the channel key it is associated with.
#[derive(Clone, Copy, Debug, PartialEq, Eq)]
pub struct SeatData {
    pub channel_key: Key,
}

impl View for SeatData {
    type V = Seq<u8>;

    open spec fn view(&self) -> Seq<u8> {
        self.channel_key@
    }
}

/// The seat whose record the data begins with.
pub open spec fn decode_seat(d: Seq<u8>) -> Option<Seq<u8>> {
    if d.len() >= SEAT_DATA_SIZE {
        Some(d.subrange(0, 32))
    } else {
        None
    }
}

impl SeatData {
    /// The seat's record: the channel key's bytes.
    pub fn to_bytes(&self) -> (r: Vec<u8>)
        ensures
            r@ == self@,
    {
        self.channel_key.to_vec()
    }

    /// The seat whose record `data` begins with.
    pub fn from_bytes(data: &[u8]) -> (r: Option<SeatData>)
        ensures
            r matches Some(s) ==> decode_seat(data@) == Some(s@),
            r is None ==> decode_seat(data@) is None,
    {
        if data.len() < 32 {
            return None;
        }
        let mut bytes = [0u8; 32];
        let mut i: usize = 0;
        while i < 32
            invariant
                i <= 32,
                data@.len() >= 32,
                bytes@.len() == 32,
                forall|j: int| 0 <= j < i ==> bytes@[j] == data@[j],
            decreases 32 - i,
        {
            bytes[i] = data[i];
            i = i + 1;
        }
        let s = SeatData { channel_key: Key { bytes } };
        assert(s@ =~= data@.subrange(0, 32));
        Some(s)
    }
}

/// Decoding the record of a seat gives the same channel key back.
pub proof fn lemma_seat_round_trip(key: Seq<u8>)
    requires
        key.len() == SEAT_DATA_SIZE,
    ensures
        decode_seat(key) == Some(key),
{
    assert(key.subrange(0, 32) =~= key);
}

} // verus!
