//! The map between instruction indices and instruction addresses (in units of 4 bytes),
//! held in a bidirectional map of the `bimap` crate.

use vstd::prelude::*;
use bimap::BiHashMap;
use crate::instructions::{get_instruction_size, spec_instruction_size, GMInstruction};

verus! {

#[verifier::external_type_specification]
#[verifier::external_body]
#[verifier::reject_recursive_types(L)]
#[verifier::reject_recursive_types(R)]
#[verifier::reject_recursive_types(LS)]
#[verifier::reject_recursive_types(RS)]
pub struct ExBiHashMap<L, R, LS, RS>(BiHashMap<L, R, LS, RS>);

/// The pairs held by a bimap of indices and addresses, as a map from the left value
/// (the index) to the right value (the address).
pub uninterp spec fn address_pairs(m: BiHashMap<usize, u32>) -> Map<usize, u32>;

/// The pairs after `BiHashMap::insert(left, right)`: every pair whose left value is
/// `left` or whose right value is `right` is gone, and `(left, right)` is there.
pub open spec fn pairs_inserted(m: Map<usize, u32>, left: usize, right: u32) -> Map<usize, u32> {
    Map::new(
        |k: usize| k == left || (m.dom().contains(k) && m[k] != right),
        |k: usize| if k == left { right } else { m[k] },
    )
}

/// Calls `BiHashMap::new` (bimap). Claimed: the bimap is empty.
#[verifier::external_body]
fn new_address_map() -> (map: BiHashMap<usize, u32>)
    ensures
        address_pairs(map).dom() == Set::<usize>::empty(),
{
    BiHashMap::new()
}

/// Calls `BiHashMap::insert` (bimap), dropping what it reports as overwritten.
/// Claimed, as its source shows (it removes by left, removes by right, then inserts):
/// the pairs with the same left or the same right value are replaced by the new pair.
#[verifier::external_body]
fn insert_address(m: &mut BiHashMap<usize, u32>, left: usize, right: u32)
    ensures
        address_pairs(*final(m)) == pairs_inserted(address_pairs(*old(m)), left, right),
{
    m.insert(left, right);
}

/// Calls `BiHashMap::get_by_left` (bimap). Claimed: the right value paired with `left`,
/// if there is one.
#[verifier::external_body]
fn address_of_index(m: &BiHashMap<usize, u32>, left: usize) -> (r: Option<u32>)
    ensures
        r == (if address_pairs(*m).dom().contains(left) {
            Some(address_pairs(*m)[left])
        } else {
            None::<u32>
        }),
{
    m.get_by_left(&left).copied()
}

/// Calls `BiHashMap::get_by_right` (bimap). Claimed: a left value paired with `right`,
/// if there is one, and `None` only when there is none.
#[verifier::external_body]
fn index_of_address(m: &BiHashMap<usize, u32>, right: u32) -> (r: Option<usize>)
    ensures
        match r {
            Some(l) => address_pairs(*m).dom().contains(l) && address_pairs(*m)[l] == right,
            None => forall|l: usize| #[trigger] address_pairs(*m).dom().contains(l) ==> address_pairs(*m)[l] != right,
        },
{
    m.get_by_right(&right).copied()
}

/// The address of instruction `i`: the sum of the sizes of the instructions before it.
pub open spec fn instruction_address(instructions: Seq<GMInstruction>, i: int) -> nat
    decreases i,
{
    if i <= 0 {
        0
    } else {
        instruction_address(instructions, i - 1) + spec_instruction_size(instructions[i - 1]) as nat
    }
}

/// The address just after the last instruction.
pub open spec fn code_size(instructions: Seq<GMInstruction>) -> nat {
    instruction_address(instructions, instructions.len() as int)
}

/// Addresses grow with the index, by at least one per instruction.
pub proof fn lemma_address_increasing(instructions: Seq<GMInstruction>, i: int, j: int)
    requires
        0 <= i < j <= instructions.len(),
    ensures
        instruction_address(instructions, i) + (j - i) <= instruction_address(instructions, j),
    decreases j - i,
{
    if j > i + 1 {
        lemma_address_increasing(instructions, i, j - 1);
    }
}

/// The index of the instruction at `address`, if an instruction starts there.
pub open spec fn index_at_address(instructions: Seq<GMInstruction>, address: int) -> Option<int> {
    if exists|i: int| 0 <= i < instructions.len() && instruction_address(instructions, i) == address {
        Some(choose|i: int| 0 <= i < instructions.len() && instruction_address(instructions, i) == address)
    } else {
        None
    }
}

/// Each address belongs to at most one instruction.
pub proof fn lemma_index_at_address(instructions: Seq<GMInstruction>, i: int)
    requires
        0 <= i < instructions.len(),
    ensures
        index_at_address(instructions, instruction_address(instructions, i) as int) == Some(i),
{
    let a = instruction_address(instructions, i) as int;
    assert(0 <= i < instructions.len() && instruction_address(instructions, i) == a);
    let j = choose|j: int| 0 <= j < instructions.len() && instruction_address(instructions, j) == a;
    if j < i {
        lemma_address_increasing(instructions, j, i);
    } else if i < j {
        lemma_address_increasing(instructions, i, j);
    }
}

/// The address map of a bimap: index `i` of `instructions` is paired with its address.
pub open spec fn is_address_map(m: Map<usize, u32>, instructions: Seq<GMInstruction>) -> bool {
    &&& forall|i: usize| m.dom().contains(i) <==> (i as int) < instructions.len()
    &&& forall|i: usize| #[trigger] m.dom().contains(i) ==> m[i] == instruction_address(instructions, i as int)
}

/// Pairs each instruction's index with its address (`get_instruction_size` units).
/// The addresses must fit in a `u32`.
pub fn generate_address_map(instructions: &Vec<GMInstruction>) -> (m: BiHashMap<usize, u32>)
    requires
        code_size(instructions@) <= u32::MAX,
    ensures
        is_address_map(address_pairs(m), instructions@),
{
    let mut map = new_address_map();
    let mut current_address: u32 = 0;
    let mut i: usize = 0;
    while i < instructions.len()
        invariant
            i <= instructions@.len(),
            code_size(instructions@) <= u32::MAX,
            current_address == instruction_address(instructions@, i as int),
            forall|k: usize| address_pairs(map).dom().contains(k) <==> k < i,
            forall|k: usize| #[trigger] address_pairs(map).dom().contains(k) ==> address_pairs(map)[k] == instruction_address(instructions@, k as int),
        decreases instructions@.len() - i,
    {
        let ghost before = address_pairs(map);
        insert_address(&mut map, i, current_address);
        proof {
            assert forall|k: usize| before.dom().contains(k) implies before[k] != current_address by {
                lemma_address_increasing(instructions@, k as int, i as int);
            }
            if i + 1 < instructions@.len() {
                lemma_address_increasing(instructions@, i + 1, instructions@.len() as int);
            }
        }
        let size = get_instruction_size(&instructions[i]);
        proof {
            if i + 1 < instructions@.len() {
                lemma_address_increasing(instructions@, i + 1, instructions@.len() as int);
            }
        }
        current_address = current_address + size;
        i = i + 1;
    }
    map
}

/// Looks up the index of the instruction at `address` in an address map.
pub fn find_index(map: &BiHashMap<usize, u32>, instructions: &Vec<GMInstruction>, address: u32) -> (r: Option<usize>)
    requires
        is_address_map(address_pairs(*map), instructions@),
    ensures
        match r {
            Some(i) => index_at_address(instructions@, address as int) == Some(i as int),
            None => index_at_address(instructions@, address as int) is None,
        },
{
    let r = index_of_address(map, address);
    let n = instructions.len();
    proof {
        match r {
            Some(i) => {
                assert(address_pairs(*map).dom().contains(i));
                assert((i as int) < instructions@.len());
                lemma_index_at_address(instructions@, i as int);
            },
            None => {
                if exists|i: int| 0 <= i < instructions@.len() && instruction_address(instructions@, i) == address {
                    let i = choose|i: int| 0 <= i < instructions@.len() && instruction_address(instructions@, i) == address;
                    assert(address_pairs(*map).dom().contains(i as usize)) by {
                        assert(i < n);
                        assert((i as usize) as int == i);
                    }
                }
            },
        }
    }
    r
}

/// Looks up the address of instruction `index` in an address map.
pub fn find_address(map: &BiHashMap<usize, u32>, instructions: &Vec<GMInstruction>, index: usize) -> (r: u32)
    requires
        is_address_map(address_pairs(*map), instructions@),
        index < instructions@.len(),
    ensures
        r == instruction_address(instructions@, index as int),
{
    let r = address_of_index(map, index);
    r.unwrap()
}

} // verus!
