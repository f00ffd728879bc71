use vstd::prelude::*;
use crate::bytes::bytes_eq;
use crate::messages::ShardId;
use crate::primitives::{decode_hex, hex_decode};
use vstd::utf8::encode_utf8;
use vstd::string::StringSliceAdditionalSpecFns;

verus! {

/// Which account-to-shard policy a deployment uses.
#[derive(Clone, Copy, Debug, PartialEq, Eq, Structural)]
pub enum Account2ShardType {
    HashPolicy,
    GraphPolicy,
}

impl Account2ShardType {
    /// The policy with the given index: 0 for hash, 1 for graph.
    pub fn from_index(i: usize) -> (r: Option<Account2ShardType>)
        ensures
            r == (if i == 0 {
                Some(Account2ShardType::HashPolicy)
            } else if i == 1 {
                Some(Account2ShardType::GraphPolicy)
            } else {
                None
            }),
    {
        if i == 0 {
            Some(Account2ShardType::HashPolicy)
        } else if i == 1 {
            Some(Account2ShardType::GraphPolicy)
        } else {
            None
        }
    }
}

/// One row of an address-to-shard table: the address in `0x`-prefixed hex.
pub struct AccToShardItem {
    pub account: String,
    pub shard: ShardId,
}

/// One row of an active-address-to-shard table.
pub struct ActAccToShardItem {
    pub act_account: String,
    pub shard: ShardId,
}

/// One preloaded placement of an address.
pub struct AccShardEntry {
    pub addr: Vec<u8>,
    pub shard: ShardId,
}

/// The hash policy: the last byte of the address modulo the number of shards.
pub open spec fn hash_shard(addr: Seq<u8>, shard_num: usize) -> ShardId
    recommends
        shard_num > 0,
        addr.len() > 0,
{
    (addr.last() as usize % shard_num) as usize
}

/// The placement of `addr` in a table, the latest row winning.
pub open spec fn table_lookup(t: Seq<AccShardEntry>, addr: Seq<u8>) -> Option<ShardId>
    decreases t.len(),
{
    if t.len() == 0 {
        None
    } else if t.last().addr@ == addr {
        Some(t.last().shard)
    } else {
        table_lookup(t.drop_last(), addr)
    }
}

/// The address an address-table cell stands for: its text after the two-character
/// `0x` prefix, read as hexadecimal.
pub open spec fn parse_address(text: Seq<u8>) -> Option<Seq<u8>> {
    if text.len() < 2 {
        None
    } else {
        hex_decode(text.subrange(2, text.len() as int))
    }
}

/// Reads an address written as `0x` followed by hexadecimal digits.
pub fn address_from_hex(text: &str) -> (r: Option<Vec<u8>>)
    ensures
        match r {
            Some(v) => parse_address(text.spec_bytes()) == Some(v@),
            None => parse_address(text.spec_bytes()) is None,
        },
{
    let b = text.as_bytes();
    if b.len() < 2 {
        return None;
    }
    let mut digits: Vec<u8> = Vec::new();
    let mut i: usize = 2;
    while i < b.len()
        invariant
            2 <= i <= b@.len(),
            b@ == text.spec_bytes(),
            digits@ == b@.subrange(2, i as int),
        decreases b@.len() - i,
    {
        digits.push(b[i]);
        i = i + 1;
        assert(digits@ =~= b@.subrange(2, i as int));
    }
    decode_hex(&digits)
}

/// Maps an address to the shard that owns it.
pub trait Account2Shard {
    spec fn spec_shard_num(&self) -> ShardId;

    spec fn shard_of(&self, addr: Seq<u8>) -> ShardId;

    fn get_shard_num(&self) -> (r: ShardId)
        ensures
            r == self.spec_shard_num(),
    ;

    fn get_shard(&self, addr: &Vec<u8>) -> (r: ShardId)
        requires
            self.spec_shard_num() > 0,
            addr@.len() > 0,
        ensures
            r == self.shard_of(addr@),
    ;
}

/// Places each address by its last byte.
pub struct Account2ShardHash {
    pub shard_num: ShardId,
}

impl Account2ShardHash {
    pub fn new(shard_num: ShardId) -> (r: Account2ShardHash)
        ensures
            r.shard_num == shard_num,
    {
        Account2ShardHash { shard_num }
    }
}

impl Account2Shard for Account2ShardHash {
    open spec fn spec_shard_num(&self) -> ShardId {
        self.shard_num
    }

    open spec fn shard_of(&self, addr: Seq<u8>) -> ShardId {
        hash_shard(addr, self.shard_num)
    }

    fn get_shard_num(&self) -> (r: ShardId) {
        self.shard_num
    }

    fn get_shard(&self, addr: &Vec<u8>) -> (r: ShardId) {
        let last = addr[addr.len() - 1];
        last as usize % self.shard_num
    }
}

/// With a single shard, the hash policy places every address in shard 0.
pub proof fn lemma_single_shard_hash(addr: Seq<u8>)
    requires
        addr.len() > 0,
    ensures
        hash_shard(addr, 1) == 0,
{
}

/// Places addresses by a preloaded table, falling back to the hash policy for
/// addresses that the table does not hold.
pub struct Account2ShardGraph {
    pub shard_num: ShardId,
    pub acc2shard: Vec<AccShardEntry>,
}

/// Why an address table could not be loaded.
#[derive(Clone, Copy, Debug, PartialEq, Eq, Structural)]
pub enum TableError {
    /// The row at this index does not hold a `0x`-prefixed hexadecimal address.
    BadAddress(usize),
}

impl Account2ShardGraph {
    /// Builds the table from its rows, in order; a later row for the same
    /// address overrides an earlier one.
    pub fn new(shard_num: ShardId, items: &Vec<AccToShardItem>) -> (r: Result<
        Account2ShardGraph,
        TableError,
    >)
        ensures
            match r {
                Ok(g) => g.shard_num == shard_num && g.acc2shard@.len() == items@.len() && (forall|
                    i: int,
                |
                    0 <= i < items@.len() ==> parse_address(
                        encode_utf8((#[trigger] items@[i]).account@),
                    ) == Some(g.acc2shard@[i].addr@) && g.acc2shard@[i].shard == items@[i].shard),
                Err(TableError::BadAddress(k)) => k < items@.len() && parse_address(
                    encode_utf8(items@[k as int].account@),
                ) is None && forall|i: int|
                    0 <= i < k ==> parse_address(encode_utf8((#[trigger] items@[i]).account@))
                        is Some,
            },
    {
        let mut acc2shard: Vec<AccShardEntry> = Vec::new();
        let mut i: usize = 0;
        while i < items.len()
            invariant
                i <= items@.len(),
                acc2shard@.len() == i,
                forall|j: int|
                    0 <= j < i ==> parse_address(encode_utf8((#[trigger] items@[j]).account@))
                        == Some(acc2shard@[j].addr@) && acc2shard@[j].shard == items@[j].shard,
            decreases items@.len() - i,
        {
            let item = &items[i];
            match address_from_hex(item.account.as_str()) {
                Some(addr) => {
                    acc2shard.push(AccShardEntry { addr, shard: item.shard });
                },
                None => {
                    return Err(TableError::BadAddress(i));
                },
            }
            i = i + 1;
        }
        Ok(Account2ShardGraph { shard_num, acc2shard })
    }
}

impl Account2Shard for Account2ShardGraph {
    open spec fn spec_shard_num(&self) -> ShardId {
        self.shard_num
    }

    open spec fn shard_of(&self, addr: Seq<u8>) -> ShardId {
        match table_lookup(self.acc2shard@, addr) {
            Some(s) => s,
            None => hash_shard(addr, self.shard_num),
        }
    }

    fn get_shard_num(&self) -> (r: ShardId) {
        self.shard_num
    }

    fn get_shard(&self, addr: &Vec<u8>) -> (r: ShardId) {
        let mut i: usize = self.acc2shard.len();
        assert(self.acc2shard@.subrange(0, i as int) =~= self.acc2shard@);
        while i > 0
            invariant
                i <= self.acc2shard@.len(),
                table_lookup(self.acc2shard@, addr@) == table_lookup(
                    self.acc2shard@.subrange(0, i as int),
                    addr@,
                ),
            decreases i,
        {
            let ghost t = self.acc2shard@.subrange(0, i as int);
            assert(t.drop_last() =~= self.acc2shard@.subrange(0, i - 1));
            if bytes_eq(&self.acc2shard[i - 1].addr, addr) {
                return self.acc2shard[i - 1].shard;
            }
            i = i - 1;
        }
        let last = addr[addr.len() - 1];
        last as usize % self.shard_num
    }
}

/// The policy a deployment runs with, chosen once at start-up.
pub enum ShardPolicy {
    Hash(Account2ShardHash),
    Graph(Account2ShardGraph),
}

impl ShardPolicy {
    pub open spec fn spec_shard_num(&self) -> ShardId {
        match self {
            ShardPolicy::Hash(h) => h.spec_shard_num(),
            ShardPolicy::Graph(g) => g.spec_shard_num(),
        }
    }

    pub open spec fn shard_of(&self, addr: Seq<u8>) -> ShardId {
        match self {
            ShardPolicy::Hash(h) => h.shard_of(addr),
            ShardPolicy::Graph(g) => g.shard_of(addr),
        }
    }

    pub fn get_shard_num(&self) -> (r: ShardId)
        ensures
            r == self.spec_shard_num(),
    {
        match self {
            ShardPolicy::Hash(h) => h.get_shard_num(),
            ShardPolicy::Graph(g) => g.get_shard_num(),
        }
    }

    pub fn get_shard(&self, addr: &Vec<u8>) -> (r: ShardId)
        requires
            self.spec_shard_num() > 0,
            addr@.len() > 0,
        ensures
            r == self.shard_of(addr@),
    {
        match self {
            ShardPolicy::Hash(h) => h.get_shard(addr),
            ShardPolicy::Graph(g) => g.get_shard(addr),
        }
    }
}

} // verus!
