//! The shards that are active at one moment, and the place of an account among them.
//!
//! A topology is the list of active shards in the order in which the network
//! reports them. It is well formed when every shard in it has a marker.

use crate::format::{hex_list, push_hex_list};
use crate::identifier::{
    account_top64, extract_top64, hex_bytes, strip_workchain, IDENTIFIER_BYTES,
};
use crate::shard::{
    first_prefix, last_prefix, lemma_covers_is_range, shard_contains, shard_covers, MASTER_SHARD,
};
use vstd::prelude::*;
use vstd::string::StringExecFns;
use vstd::utf8::encode_utf8;

verus! {

/// Every shard of `topology` has a marker: none is the all-zero word.
pub open spec fn well_formed(topology: Seq<u64>) -> bool {
    forall|i: int| 0 <= i < topology.len() ==> topology[i] != 0
}

/// The first shard of `topology` that holds `account_prefix`.
pub open spec fn shard_of_prefix(topology: Seq<u64>, account_prefix: u64) -> Option<u64>
    decreases topology.len(),
{
    if topology.len() == 0 {
        None
    } else if shard_covers(topology.first(), account_prefix) {
        Some(topology.first())
    } else {
        shard_of_prefix(topology.drop_first(), account_prefix)
    }
}

/// The shard of the account that the text `account_id` names: the first
/// shard of `topology` that holds the identifier. There is none where the text
/// is no identifier.
pub open spec fn shard_of(topology: Seq<u64>, account_id: Seq<char>) -> Option<u64> {
    match account_top64(account_id) {
        Some(account_prefix) => shard_of_prefix(topology, account_prefix),
        None => None,
    }
}

/// A text whose digits spell more or fewer than 32 bytes names no account,
/// and has no shard in any topology.
pub proof fn lemma_wrong_length_has_no_shard(topology: Seq<u64>, account_id: Seq<char>)
    requires
        hex_bytes(strip_workchain(encode_utf8(account_id))).len() != IDENTIFIER_BYTES,
    ensures
        account_top64(account_id) is None,
        shard_of(topology, account_id) is None,
{
}

/// `shard_of_prefix` finds the first match in the order of the topology: the
/// shard that it gives holds the prefix and no shard before it does, and it
/// gives none only where no shard holds the prefix.
pub proof fn lemma_shard_of_prefix_is_first(topology: Seq<u64>, account_prefix: u64)
    ensures
        match shard_of_prefix(topology, account_prefix) {
            Some(shard) => exists|i: int|
                0 <= i < topology.len() && #[trigger] topology[i] == shard && shard_covers(
                    shard,
                    account_prefix,
                ) && forall|j: int| 0 <= j < i ==> !shard_covers(#[trigger] topology[j], account_prefix),
            None => forall|i: int|
                0 <= i < topology.len() ==> !shard_covers(#[trigger] topology[i], account_prefix),
        },
    decreases topology.len(),
{
    if topology.len() > 0 && !shard_covers(topology.first(), account_prefix) {
        let rest = topology.drop_first();
        lemma_shard_of_prefix_is_first(rest, account_prefix);
        match shard_of_prefix(rest, account_prefix) {
            Some(shard) => {
                let i = choose|i: int|
                    0 <= i < rest.len() && #[trigger] rest[i] == shard && forall|j: int|
                        0 <= j < i ==> !shard_covers(#[trigger] rest[j], account_prefix);
                assert(topology[i + 1] == shard);
                assert forall|j: int| 0 <= j < i + 1 implies !shard_covers(
                    #[trigger] topology[j],
                    account_prefix,
                ) by {
                    if j > 0 {
                        assert(topology[j] == rest[j - 1]);
                    }
                }
            },
            None => {
                assert forall|i: int| 0 <= i < topology.len() implies !shard_covers(
                    #[trigger] topology[i],
                    account_prefix,
                ) by {
                    if i > 0 {
                        assert(topology[i] == rest[i - 1]);
                    }
                }
            },
        }
    } else if topology.len() > 0 {
        assert(topology[0] == topology.first());
    }
}

/// `account_prefix` lies in the block of prefixes of `shard`.
pub open spec fn in_block(shard: u64, account_prefix: u64) -> bool {
    first_prefix(shard) <= account_prefix <= last_prefix(shard)
}

/// No two shards of `topology` have a prefix in common: of any two blocks, one
/// ends before the other starts.
pub open spec fn non_overlapping(topology: Seq<u64>) -> bool {
    forall|i: int, j: int|
        0 <= i < j < topology.len() ==> last_prefix(#[trigger] topology[i]) < first_prefix(
            #[trigger] topology[j],
        ) || last_prefix(topology[j]) < first_prefix(topology[i])
}

/// Some block of `topology` has `account_prefix` in it.
pub open spec fn held(topology: Seq<u64>, account_prefix: u64) -> bool {
    exists|i: int| 0 <= i < topology.len() && in_block(#[trigger] topology[i], account_prefix)
}

/// The blocks of `topology` leave no 64-bit prefix out.
pub open spec fn covers_space(topology: Seq<u64>) -> bool {
    forall|account_prefix: u64| #[trigger] held(topology, account_prefix)
}

/// In a topology whose blocks do not overlap and together cover the space,
/// every account prefix has its shard, and only one: the result is the place
/// of that shard in the topology.
pub proof fn lemma_partition_assigns_one_shard(topology: Seq<u64>, account_prefix: u64) -> (i: int)
    requires
        well_formed(topology),
        non_overlapping(topology),
        covers_space(topology),
    ensures
        0 <= i < topology.len(),
        shard_covers(topology[i], account_prefix),
        forall|j: int|
            0 <= j < topology.len() && shard_covers(#[trigger] topology[j], account_prefix) ==> j
                == i,
        shard_of_prefix(topology, account_prefix) == Some(topology[i]),
{
    assert(held(topology, account_prefix));
    let i = choose|i: int|
        0 <= i < topology.len() && in_block(#[trigger] topology[i], account_prefix);
    lemma_covers_is_range(topology[i], account_prefix);
    assert forall|j: int|
        0 <= j < topology.len() && shard_covers(#[trigger] topology[j], account_prefix) implies j
        == i by {
        lemma_covers_is_range(topology[j], account_prefix);
    }
    lemma_shard_of_prefix_is_first(topology, account_prefix);
    i
}

/// Whether `net_shards` is well formed.
pub fn is_well_formed(net_shards: &Vec<u64>) -> (r: bool)
    ensures
        r == well_formed(net_shards@),
{
    let mut i: usize = 0;
    while i < net_shards.len()
        invariant
            i <= net_shards.len(),
            forall|j: int| 0 <= j < i ==> net_shards@[j] != 0,
        decreases net_shards.len() - i,
    {
        if net_shards[i] == 0 {
            return false;
        }
        i += 1;
    }
    true
}

/// The shard among `net_shards` to which the account `account_id` belongs.
/// A malformed identifier belongs to none.
pub fn get_shard(net_shards: &Vec<u64>, account_id: &str) -> (r: Option<u64>)
    requires
        well_formed(net_shards@),
    ensures
        r == shard_of(net_shards@, account_id@),
        account_top64(account_id@) is None ==> r is None,
{
    match extract_top64(account_id) {
        None => None,
        Some(top64) => {
            let mut i: usize = 0;
            assert(net_shards@.skip(0) =~= net_shards@);
            while i < net_shards.len()
                invariant
                    i <= net_shards.len(),
                    well_formed(net_shards@),
                    account_top64(account_id@) == Some(top64),
                    shard_of_prefix(net_shards@.skip(i as int), top64) == shard_of_prefix(
                        net_shards@,
                        top64,
                    ),
                decreases net_shards.len() - i,
            {
                let shard = net_shards[i];
                assert(net_shards@.skip(i as int).first() == shard);
                if shard_contains(shard, top64) {
                    return Some(shard);
                }
                assert(net_shards@.skip(i as int).drop_first() =~= net_shards@.skip(i + 1));
                i += 1;
            }
            None
        },
    }
}

/// What the operator is told when the requested shard is not active.
pub open spec fn unknown_shard_message(topology: Seq<u64>) -> Seq<char> {
    "Invalid shard. Choose from: "@ + hex_list(topology)
}

/// Accepts `shard` as the target of a search when it is one of `net_shards`,
/// word for word. Otherwise the error lists the shards to choose from.
pub fn validate_shard(net_shards: Vec<u64>, shard: u64) -> (r: Result<(), String>)
    ensures
        r is Ok <==> net_shards@.contains(shard),
        r matches Err(message) ==> message@ == unknown_shard_message(net_shards@),
{
    let mut i: usize = 0;
    while i < net_shards.len()
        invariant
            i <= net_shards.len(),
            forall|j: int| 0 <= j < i ==> net_shards@[j] != shard,
        decreases net_shards.len() - i,
    {
        if net_shards[i] == shard {
            return Ok(());
        }
        i += 1;
    }
    let mut message = String::from_str("Invalid shard. Choose from: ");
    push_hex_list(&mut message, &net_shards);
    Err(message)
}

/// The shard word that the network reports as the signed number `raw`: the
/// same 64 bits, read as unsigned.
pub open spec fn shard_word(raw: i64) -> u64 {
    if raw >= 0 {
        raw as u64
    } else {
        (raw + 0x1_0000_0000_0000_0000) as u64
    }
}

/// The shards of a report that accounts are assigned to: all of them but the
/// whole-space shard, in the order of the report.
pub open spec fn assignable(reported: Seq<i64>) -> Seq<u64> {
    reported.map_values(|raw: i64| shard_word(raw)).filter(|word: u64| word != MASTER_SHARD)
}

/// The topology that a report of the network amounts to. `masterchain` is the
/// shard of the last masterchain block and `shards` are the shards of that
/// block, as the network numbers them. The whole-space shard is left out.
pub fn active_shards(masterchain: i64, shards: &Vec<i64>) -> (net_shards: Vec<u64>)
    ensures
        net_shards@ == assignable(seq![masterchain] + shards@),
{
    let ghost reported = seq![masterchain] + shards@;
    let ghost words = reported.map_values(|raw: i64| shard_word(raw));
    let ghost keep = |word: u64| word != MASTER_SHARD;
    let mut net_shards: Vec<u64> = Vec::new();
    proof {
        reveal_with_fuel(Seq::filter, 2);
        assert(words.take(1).drop_last() =~= Seq::<u64>::empty());
    }
    let first = word_of(masterchain);
    if first != MASTER_SHARD {
        net_shards.push(first);
    }
    let mut i: usize = 0;
    while i < shards.len()
        invariant
            i <= shards.len(),
            reported == seq![masterchain] + shards@,
            words == reported.map_values(|raw: i64| shard_word(raw)),
            keep == |word: u64| word != MASTER_SHARD,
            net_shards@ == words.take(i + 1).filter(keep),
        decreases shards.len() - i,
    {
        let word = word_of(shards[i]);
        proof {
            reveal(Seq::filter);
            assert(words.take(i + 2).drop_last() =~= words.take(i + 1));
            assert(words.take(i + 2).last() == word);
        }
        if word != MASTER_SHARD {
            net_shards.push(word);
        }
        i += 1;
    }
    assert(words.take(shards.len() + 1) =~= words);
    net_shards
}

/// The bits of `raw` read as an unsigned word.
fn word_of(raw: i64) -> (word: u64)
    ensures
        word == shard_word(raw),
{
    let word = raw as u64;
    assert(word == shard_word(raw)) by (bit_vector)
        requires
            word == raw as u64,
    ;
    word
}

} // verus!
