//! Control IDs and circuit constants published by the circuit crates.

use vstd::prelude::*;

use super::digest::Digest;
use super::merkle::digests_view;
use super::program::decimal;

verus! {

/// Digest `i` of the list of control IDs that the recursion system allows by default.
pub uninterp spec fn allowed_control_id(i: int) -> Seq<u32>;

/// The number of control IDs allowed by default.
///
/// Trusted: the length of `risc0_circuit_recursion::control_id::ALLOWED_CONTROL_IDS`,
/// a constant list of 25 digests.
#[verifier::external_body]
fn allowed_control_ids_len() -> (n: usize)
    ensures
        n == 25,
{
    risc0_circuit_recursion::control_id::ALLOWED_CONTROL_IDS.len()
}

/// One of the control IDs allowed by default.
///
/// Trusted: reads entry `i` of `risc0_circuit_recursion::control_id::ALLOWED_CONTROL_IDS`.
/// The contract names it, and says that the first 11 entries are the rv32im Poseidon2
/// control IDs, in order: the two constant lists hold the same digests there.
#[verifier::external_body]
fn allowed_control_ids_entry(i: usize) -> (d: Digest)
    requires
        i < 25,
    ensures
        d@ == allowed_control_id(i as int),
        i < 11 ==> d@ == rv32im_poseidon2_control_id(i as int),
{
    Digest { words: risc0_circuit_recursion::control_id::ALLOWED_CONTROL_IDS[i].into() }
}

/// The list of control IDs allowed by default, in order.
pub open spec fn allowed_control_ids_spec() -> Seq<Seq<u32>> {
    Seq::new(25, |i: int| allowed_control_id(i))
}

/// The control IDs that the recursion system allows by default; the first 11 are the
/// rv32im control IDs, one per cycle count.
pub fn allowed_control_ids() -> (v: Vec<Digest>)
    ensures
        digests_view(v@) == allowed_control_ids_spec(),
        forall|j: int| 0 <= j < 11 ==> (#[trigger] v@[j])@ == rv32im_poseidon2_control_id(j),
{
    let n = allowed_control_ids_len();
    let mut v: Vec<Digest> = Vec::new();
    let mut i: usize = 0;
    while i < n
        invariant
            n == 25,
            0 <= i <= n,
            v@.len() == i,
            forall|j: int| 0 <= j < i ==> (#[trigger] v@[j])@ == allowed_control_id(j),
            forall|j: int| 0 <= j < i && j < 11 ==> (#[trigger] v@[j])@ == rv32im_poseidon2_control_id(j),
        decreases n - i,
    {
        v.push(allowed_control_ids_entry(i));
        i = i + 1;
    }
    assert(digests_view(v@) =~= allowed_control_ids_spec());
    v
}

/// The control ID of entry `i` of the table of recursion programs.
pub uninterp spec fn zkr_table_control_id(i: int) -> Seq<u32>;

/// The file name of entry `i` of the table of recursion programs: the identity and join
/// programs, the lift programs for segments of 2^14 to 2^24 cycles, the resolve program
/// and the program that tests the recursion circuit.
pub open spec fn zkr_table_name(i: int) -> Seq<char> {
    if i == 0 {
        "identity.zkr"@
    } else if i == 1 {
        "join.zkr"@
    } else if 2 <= i <= 12 {
        "lift_"@ + decimal((i + 12) as nat) + ".zkr"@
    } else if i == 13 {
        "resolve.zkr"@
    } else {
        "test_recursion_circuit.zkr"@
    }
}

/// The number of recursion programs in the table.
///
/// Trusted: the length of `risc0_circuit_recursion::control_id::POSEIDON2_CONTROL_IDS`,
/// an array of 15 entries.
#[verifier::external_body]
fn zkr_table_len() -> (n: usize)
    ensures
        n == 15,
{
    risc0_circuit_recursion::control_id::POSEIDON2_CONTROL_IDS.len()
}

/// One entry of the table of recursion programs.
///
/// Trusted: reads entry `i` of `risc0_circuit_recursion::control_id::POSEIDON2_CONTROL_IDS`,
/// a pair of a program file name and its Poseidon2 control ID. The contract states the
/// name, as the constant table writes it, and names the control ID.
#[verifier::external_body]
fn zkr_table_entry(i: usize) -> (r: (String, Digest))
    requires
        i < 15,
    ensures
        r.0@ == zkr_table_name(i as int),
        r.1@ == zkr_table_control_id(i as int),
{
    let (name, id) = risc0_circuit_recursion::control_id::POSEIDON2_CONTROL_IDS[i];
    (name.to_string(), Digest { words: id.into() })
}

/// The control ID of the first table entry from `i` on whose name is `name`.
pub open spec fn zkr_lookup_from(name: Seq<char>, i: int) -> Option<Seq<u32>>
    decreases 15 - i,
{
    if i < 0 || i >= 15 {
        None
    } else if zkr_table_name(i) == name {
        Some(zkr_table_control_id(i))
    } else {
        zkr_lookup_from(name, i + 1)
    }
}

/// The control ID of the recursion program named `name`, if the table has one.
pub open spec fn zkr_lookup(name: Seq<char>) -> Option<Seq<u32>> {
    zkr_lookup_from(name, 0)
}

/// Looks up the control ID of the recursion program named `name`.
pub fn zkr_control_id(name: &String) -> (r: Option<Digest>)
    ensures
        r is Some <==> zkr_lookup(name@) is Some,
        r matches Some(d) ==> Some(d@) == zkr_lookup(name@),
{
    let n = zkr_table_len();
    let mut i: usize = 0;
    while i < n
        invariant
            n == 15,
            0 <= i <= n,
            zkr_lookup(name@) == zkr_lookup_from(name@, i as int),
        decreases n - i,
    {
        let (entry_name, id) = zkr_table_entry(i);
        if entry_name == *name {
            return Some(id);
        }
        i = i + 1;
    }
    None
}

/// Digest `i` of the control IDs of the rv32im circuit using Poseidon2, one per
/// power-of-two cycle count from the smallest up.
pub uninterp spec fn rv32im_poseidon2_control_id(i: int) -> Seq<u32>;

/// The number of rv32im control IDs: one per supported power-of-two cycle count.
///
/// Trusted: the length of `risc0_circuit_rv32im::control_id::POSEIDON2_CONTROL_IDS`,
/// which holds `MAX_CYCLES_PO2 - MIN_CYCLES_PO2 = 11` digests.
#[verifier::external_body]
pub(crate) fn rv32im_control_ids_len() -> (n: usize)
    ensures
        n == 11,
{
    risc0_circuit_rv32im::control_id::POSEIDON2_CONTROL_IDS.len()
}

/// The rv32im control ID for the cycle count of index `i`.
///
/// Trusted: reads entry `i` of `risc0_circuit_rv32im::control_id::POSEIDON2_CONTROL_IDS`;
/// the contract only names it.
#[verifier::external_body]
pub(crate) fn rv32im_control_id(i: usize) -> (d: Digest)
    requires
        i < 11,
    ensures
        d@ == rv32im_poseidon2_control_id(i as int),
{
    Digest { words: risc0_circuit_rv32im::control_id::POSEIDON2_CONTROL_IDS[i].into() }
}

/// The smallest power-of-two cycle count of a segment.
///
/// Trusted: `risc0_zkp::MIN_CYCLES_PO2`, defined as 13.
#[verifier::external_body]
pub(crate) fn min_cycles_po2() -> (r: usize)
    ensures
        r == 13,
{
    risc0_zkp::MIN_CYCLES_PO2
}

/// The number of cycles reserved for zero-knowledge randomness.
///
/// Trusted: `risc0_zkp::ZK_CYCLES`, defined as 594.
#[verifier::external_body]
pub(crate) fn zk_cycles() -> (r: usize)
    ensures
        r == 594,
{
    risc0_zkp::ZK_CYCLES
}

/// The number of output words at the start of an rv32im seal.
///
/// Trusted: `<risc0_circuit_rv32im::CircuitImpl as CircuitInfo>::OUTPUT_SIZE`, defined as 138.
#[verifier::external_body]
pub(crate) fn rv32im_output_size() -> (r: usize)
    ensures
        r == 138,
{
    <risc0_circuit_rv32im::CircuitImpl as risc0_zkp::adapter::CircuitInfo>::OUTPUT_SIZE
}

} // verus!
