//! Locate a foreign process by name, enumerate its loaded modules, and
//! search or resolve addresses inside its virtual memory.
//!
//! The crate verifies the decision logic of those operations: name
//! normalization and matching, masked byte-pattern comparison and window
//! scanning, region-by-region cursor stepping, and multi-level pointer-chain
//! resolution. Each algorithm is specified over a snapshot of what the
//! operating system reports (enumerated processes, queried memory regions,
//! stored words), so the same decision functions can be driven against a
//! live process by a thin unverified layer, or against an in-memory mock by
//! the tests.

pub mod errors;
pub mod types;
pub mod utils;

use vstd::prelude::*;

use crate::errors::Errors;
use crate::types::{display_name, displayed_name, lower_chars, ProcessCandidate, ProcessData};
use crate::utils::{module_record_of, process_modules};

verus! {

/// True when an enumerated process takes part in matching (a non-zero
/// identifier that could be opened) and its displayed name equals the
/// lowercased target.
pub open spec fn candidate_matches(c: ProcessCandidate, target_lower: Seq<char>) -> bool {
    &&& c.pid != 0
    &&& c.openable
    &&& displayed_name(c.name_buffer@) == target_lower
}

/// True when `pd` is the record the locator builds from candidate `c`.
pub open spec fn record_of(c: ProcessCandidate, pd: ProcessData) -> bool {
    &&& pd.id == c.pid
    &&& pd.name@ == displayed_name(c.name_buffer@)
    &&& pd.module_list@.len() == c.modules@.len()
    &&& forall|k: int|
        0 <= k < c.modules@.len() ==> module_record_of(
            c.modules@[k],
            #[trigger] pd.module_list@[k],
        )
}

/// Decides whether a raw name buffer names the lowercased target, and if
/// so hands back the displayed name as an owned string.
pub fn match_name(buffer: &[u8], target_lower: &String) -> (r: Option<String>)
    ensures
        match r {
            Some(s) => s@ == displayed_name(buffer@) && displayed_name(buffer@) == target_lower@,
            None => displayed_name(buffer@) != target_lower@,
        },
{
    let name = display_name(buffer);
    if name.eq(target_lower) {
        Some(name)
    } else {
        None
    }
}

/// Searches the enumerated processes for one whose executable name matches
/// `process_name`, case-insensitively.
///
/// `candidates` lists what the enumeration reported, in enumeration order;
/// identifiers of zero and processes that could not be opened are skipped,
/// as is any whose name buffer does not decode. The first match wins; when
/// several live processes share the requested name, which one is first is
/// process churn and is not a property callers may rely on. An empty target
/// fails immediately, without consulting the enumeration.
pub fn find_process(candidates: &Vec<ProcessCandidate>, process_name: &str) -> (r: Result<
    ProcessData,
    Errors,
>)
    ensures
        process_name@.len() == 0 ==> r == Err::<ProcessData, Errors>(Errors::ProcessNotFound),
        match r {
            Ok(pd) => {
                &&& process_name@.len() > 0
                &&& pd.id != 0
                &&& pd.name@ == lower_chars(process_name@)
                &&& exists|k: int|
                    {
                        &&& 0 <= k < candidates@.len()
                        &&& #[trigger] candidate_matches(
                            candidates@[k],
                            lower_chars(process_name@),
                        )
                        &&& record_of(candidates@[k], pd)
                        &&& forall|j: int|
                            0 <= j < k ==> !candidate_matches(
                                candidates@[j],
                                lower_chars(process_name@),
                            )
                    }
            },
            Err(e) => {
                &&& e == Errors::ProcessNotFound
                &&& (process_name@.len() == 0 || forall|k: int|
                    0 <= k < candidates@.len() ==> !candidate_matches(
                        #[trigger] candidates@[k],
                        lower_chars(process_name@),
                    ))
            },
        },
{
    if process_name.is_empty() {
        return Err(Errors::ProcessNotFound);
    }
    let target_lower = crate::types::ascii_lowercase(process_name);
    let mut k: usize = 0;
    while k < candidates.len()
        invariant
            process_name@.len() > 0,
            target_lower@ == lower_chars(process_name@),
            k <= candidates@.len(),
            forall|j: int|
                0 <= j < k ==> !candidate_matches(
                    #[trigger] candidates@[j],
                    lower_chars(process_name@),
                ),
        decreases candidates@.len() - k,
    {
        let c = &candidates[k];
        if c.pid != 0 && c.openable {
            if let Some(name) = match_name(c.name_buffer.as_slice(), &target_lower) {
                let mut pd = ProcessData { id: c.pid, name, module_list: Vec::new() };
                process_modules(&mut pd, &c.modules);
                proof {
                    assert(candidate_matches(candidates@[k as int], lower_chars(process_name@)));
                    assert(record_of(candidates@[k as int], pd));
                }
                return Ok(pd);
            }
        }
        k += 1;
    }
    Err(Errors::ProcessNotFound)
}

/// A snapshot of the words stored in a target's memory: pairs of an
/// address and the machine word stored there. It backs the pointer-chain
/// resolver and the single-shot accessors, so their behaviour is stated
/// and proved against an explicit memory; an unverified layer can make the
/// same decisions against a live process, word by word.
#[derive(Debug, Clone)]
pub struct WordMemory {
    pub cells: Vec<(usize, usize)>,
}

impl View for WordMemory {
    type V = Seq<(usize, usize)>;

    open spec fn view(&self) -> Seq<(usize, usize)> {
        self.cells@
    }
}

/// The word stored at `addr`: the value of the first cell carrying that
/// address, if any.
pub open spec fn lookup(cells: Seq<(usize, usize)>, addr: usize) -> Option<usize>
    decreases cells.len(),
{
    if cells.len() == 0 {
        None
    } else if cells[0].0 == addr {
        Some(cells[0].1)
    } else {
        lookup(cells.drop_first(), addr)
    }
}

impl WordMemory {
    /// A memory with no readable words.
    pub fn new() -> (r: WordMemory)
        ensures
            r@.len() == 0,
    {
        WordMemory { cells: Vec::new() }
    }

    /// Single-shot read of the machine word stored at `addr`, if that
    /// address is readable.
    pub fn read_word(&self, addr: usize) -> (r: Option<usize>)
        ensures
            r == lookup(self@, addr),
    {
        proof {
            assert(self.cells@.skip(0) =~= self.cells@);
        }
        let mut k: usize = 0;
        while k < self.cells.len()
            invariant
                k <= self.cells@.len(),
                lookup(self.cells@, addr) == lookup(self.cells@.skip(k as int), addr),
            decreases self.cells@.len() - k,
        {
            proof {
                assert(self.cells@.skip(k as int)[0] == self.cells@[k as int]);
            }
            let cell = self.cells[k];
            if cell.0 == addr {
                return Some(cell.1);
            }
            proof {
                assert(self.cells@.skip(k as int).drop_first() =~= self.cells@.skip(k as int + 1));
            }
            k += 1;
        }
        None
    }
}

/// Single-shot write of machine word `value` at address `addr`: afterwards
/// `addr` reads back `value` and every other address is unchanged.
pub fn write(memory: &mut WordMemory, addr: usize, value: usize)
    ensures
        lookup(final(memory)@, addr) == Some(value),
        forall|a: usize| a != addr ==> lookup(final(memory)@, a) == lookup(old(memory)@, a),
{
    memory.cells.insert(0, (addr, value));
    proof {
        assert(memory.cells@.drop_first() =~= old(memory).cells@);
    }
}

/// The value a fetch leaves in the working address: the stored word when
/// the target address is readable, the unchanged working address otherwise.
pub open spec fn chain_fetch(cells: Seq<(usize, usize)>, current: usize, target: usize) -> usize {
    match lookup(cells, target) {
        Some(v) => v,
        None => current,
    }
}

/// The working address after consuming `offsets` in order, starting from
/// `current`: each step adds the next offset with wrapping arithmetic and
/// fetches the word stored there.
pub open spec fn chain_from(
    cells: Seq<(usize, usize)>,
    current: usize,
    offsets: Seq<u32>,
) -> usize
    decreases offsets.len(),
{
    if offsets.len() == 0 {
        current
    } else {
        let target = current.wrapping_add(offsets[0] as usize);
        chain_from(cells, chain_fetch(cells, current, target), offsets.drop_first())
    }
}

/// The address a pointer chain resolves to: a first fetch at `addr` into a
/// working address that starts as zero, then one offset-and-fetch step per
/// offset.
pub open spec fn chain_result(cells: Seq<(usize, usize)>, addr: usize, offsets: Seq<u32>) -> usize {
    chain_from(cells, chain_fetch(cells, 0, addr), offsets)
}

/// The address the next chain step reads from: the working address plus
/// the offset, wrapping at the top of the address space.
pub fn chain_target(current: usize, offset: u32) -> (r: usize)
    ensures
        r == current.wrapping_add(offset as usize),
{
    current.wrapping_add(offset as usize)
}

/// The working address after a fetch: the fetched word when the read
/// succeeded, the unchanged working address otherwise.
pub fn chain_next(current: usize, fetched: Option<usize>) -> (r: usize)
    ensures
        r == match fetched {
            Some(v) => v,
            None => current,
        },
{
    match fetched {
        Some(v) => v,
        None => current,
    }
}

/// Resolves a multi-level pointer chain against the given memory.
///
/// A fetch from an unreadable address does not fail the resolution: it
/// leaves the working address unchanged (stale, or zero for the very first
/// fetch), matching a best-effort pointer chase against a possibly-changing
/// target. Callers must treat a zero or implausible result as the signal of
/// failure.
pub fn read(memory: &WordMemory, addr: usize, offsets: &[u32]) -> (r: usize)
    ensures
        r == chain_result(memory@, addr, offsets@),
{
    proof {
        assert(offsets@.skip(0) =~= offsets@);
    }
    let mut current = chain_next(0, memory.read_word(addr));
    let mut k: usize = 0;
    while k < offsets.len()
        invariant
            k <= offsets@.len(),
            chain_from(memory@, current, offsets@.skip(k as int)) == chain_result(
                memory@,
                addr,
                offsets@,
            ),
        decreases offsets@.len() - k,
    {
        proof {
            assert(offsets@.skip(k as int)[0] == offsets@[k as int]);
            assert(offsets@.skip(k as int).drop_first() =~= offsets@.skip(k as int + 1));
        }
        let target = chain_target(current, offsets[k]);
        current = chain_next(current, memory.read_word(target));
        k += 1;
    }
    current
}

/// A chain with a single offset resolves to the value stored at `B + O`,
/// where `B` is the word stored at the base address and `O` the offset.
pub proof fn lemma_chain_single_offset(
    cells: Seq<(usize, usize)>,
    addr: usize,
    stored: usize,
    offset: u32,
    value: usize,
)
    requires
        lookup(cells, addr) == Some(stored),
        lookup(cells, stored.wrapping_add(offset as usize)) == Some(value),
    ensures
        chain_result(cells, addr, seq![offset]) == value,
{
    let target = stored.wrapping_add(offset as usize);
    assert(chain_fetch(cells, 0, addr) == stored);
    assert(seq![offset][0] == offset);
    assert(chain_fetch(cells, stored, target) == value);
    assert(seq![offset].drop_first() =~= Seq::<u32>::empty());
    assert(chain_from(cells, value, Seq::<u32>::empty()) == value);
    assert(chain_from(cells, stored, seq![offset]) == value);
}

} // verus!
