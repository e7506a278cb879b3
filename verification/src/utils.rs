//! Masked byte-pattern comparison, memory-region scanning, and module
//! enumeration.
//!
//! A signature is a byte pattern together with a mask string: positions
//! whose mask character is `'x'` must match exactly, every other position is
//! a wildcard. The scanner walks an address range region by region, skips
//! free regions, and slides a match window over the bytes copied out of each
//! resident region.

use vstd::prelude::*;
use vstd::string::StrSliceExecFns;
use vstd::string::StringSliceAdditionalSpecFns;
use vstd::utf8::{encode_scalar, encode_utf8};

use crate::errors::Errors;
use crate::types::{displayed_name, ModuleData, ModuleSnapshot, ProcessData};

verus! {

/// What `data_compare` decides: `data` and `sign` are both long enough to be
/// read at every mask position, and every position whose mask character is
/// `'x'` agrees between them. The length bound uses the mask's length in
/// bytes, while positions are mask characters; the two coincide for the
/// ASCII masks that signatures use.
pub open spec fn compare_ok(data: Seq<u8>, sign: Seq<u8>, mask: &str) -> bool {
    &&& data.len() >= mask.spec_bytes().len()
    &&& sign.len() >= mask.spec_bytes().len()
    &&& forall|i: int| 0 <= i < mask@.len() && mask@[i] == 'x' ==> data[i] == sign[i]
}

/// A string never has more characters than UTF-8 bytes.
proof fn lemma_char_count_le_byte_count(chars: Seq<char>)
    ensures
        chars.len() <= encode_utf8(chars).len(),
    decreases chars.len(),
{
    if chars.len() > 0 {
        assert(encode_scalar(chars[0] as u32).len() >= 1);
        lemma_char_count_le_byte_count(chars.drop_first());
    }
}

/// Compares a block of memory against a byte pattern under a mask.
///
/// Positions whose mask character is `'x'` must hold equal bytes in `data`
/// and `sign`; any other mask character is a wildcard and always matches.
/// Inputs shorter than the mask never match.
pub fn data_compare(data: &[u8], sign: &[u8], mask: &str) -> (r: bool)
    ensures
        r == compare_ok(data@, sign@, mask),
{
    let mask_bytes = mask.as_bytes();
    if data.len() < mask_bytes.len() || sign.len() < mask_bytes.len() {
        return false;
    }
    proof {
        lemma_char_count_le_byte_count(mask@);
    }
    let n = mask.unicode_len();
    let mut idx: usize = 0;
    while idx < n
        invariant
            n == mask@.len(),
            idx <= n,
            mask@.len() <= mask.spec_bytes().len(),
            data@.len() >= mask.spec_bytes().len(),
            sign@.len() >= mask.spec_bytes().len(),
            forall|j: int| 0 <= j < idx && mask@[j] == 'x' ==> data@[j] == sign@[j],
        decreases n - idx,
    {
        if mask.get_char(idx) == 'x' && data[idx] != sign[idx] {
            return false;
        }
        idx += 1;
    }
    true
}

/// A mask of nothing but wildcards matches any data and pattern that are
/// long enough, whatever their bytes.
pub proof fn lemma_compare_all_wildcards(data: Seq<u8>, sign: Seq<u8>, mask: &str)
    requires
        forall|i: int| 0 <= i < mask@.len() ==> mask@[i] != 'x',
        data.len() >= mask.spec_bytes().len(),
        sign.len() >= mask.spec_bytes().len(),
    ensures
        compare_ok(data, sign, mask),
{
}

/// Data shorter than the mask never matches.
pub proof fn lemma_compare_short_data(data: Seq<u8>, sign: Seq<u8>, mask: &str)
    requires
        data.len() < mask.spec_bytes().len(),
    ensures
        !compare_ok(data, sign, mask),
{
}

/// Given sufficient lengths, the comparison holds exactly when every
/// exact-flagged mask position agrees between data and pattern.
pub proof fn lemma_compare_exact_positions(data: Seq<u8>, sign: Seq<u8>, mask: &str)
    requires
        data.len() >= mask.spec_bytes().len(),
        sign.len() >= mask.spec_bytes().len(),
    ensures
        compare_ok(data, sign, mask) <==> (forall|i: int|
            0 <= i < mask@.len() && mask@[i] == 'x' ==> data[i] == sign[i]),
{
}

/// Turning any single exact-flagged position of matching data into a
/// mismatch flips the comparison to false, all else equal.
pub proof fn lemma_compare_flip(data: Seq<u8>, sign: Seq<u8>, mask: &str, i: int, b: u8)
    requires
        compare_ok(data, sign, mask),
        0 <= i < mask@.len(),
        mask@[i] == 'x',
        b != sign[i],
    ensures
        !compare_ok(data.update(i, b), sign, mask),
{
    lemma_char_count_le_byte_count(mask@);
    assert(data.update(i, b)[i] == b);
}

/// True when the window of `data` starting at `i` matches the signature.
pub open spec fn window_match(data: Seq<u8>, i: int, sign: Seq<u8>, mask: &str) -> bool {
    &&& 0 <= i
    &&& i + sign.len() <= data.len()
    &&& compare_ok(data.subrange(i, i + sign.len() as int), sign, mask)
}

/// True when `i` is the lowest matching window position of `data`.
pub open spec fn is_first_window_match(data: Seq<u8>, i: int, sign: Seq<u8>, mask: &str) -> bool {
    &&& window_match(data, i, sign, mask)
    &&& forall|j: int| 0 <= j < i ==> !window_match(data, j, sign, mask)
}

/// The lowest matching window position of `data`, if any window matches.
pub open spec fn first_window_match(data: Seq<u8>, sign: Seq<u8>, mask: &str) -> Option<int> {
    if exists|i: int| is_first_window_match(data, i, sign, mask) {
        Some(choose|i: int| is_first_window_match(data, i, sign, mask))
    } else {
        None
    }
}

/// The lowest matching window position is unique.
proof fn lemma_first_window_match_unique(data: Seq<u8>, sign: Seq<u8>, mask: &str, i: int, j: int)
    requires
        is_first_window_match(data, i, sign, mask),
        is_first_window_match(data, j, sign, mask),
    ensures
        i == j,
{
    if i < j {
        assert(!window_match(data, i, sign, mask));
    } else if j < i {
        assert(!window_match(data, j, sign, mask));
    }
}

/// Slides a window of the signature's length across `data` and returns the
/// first matching offset, if any.
pub fn scan_buffer(data: &[u8], sign: &[u8], mask: &str) -> (r: Option<usize>)
    requires
        sign@.len() >= 1,
    ensures
        match r {
            Some(i) => is_first_window_match(data@, i as int, sign@, mask),
            None => forall|j: int| !window_match(data@, j, sign@, mask),
        },
{
    if data.len() < sign.len() {
        return None;
    }
    let end = data.len() - sign.len();
    let mut i: usize = 0;
    while i <= end
        invariant
            sign@.len() >= 1,
            data@.len() >= sign@.len(),
            data@.len() <= usize::MAX,
            end == data@.len() - sign@.len(),
            i <= end + 1,
            forall|j: int| 0 <= j < i ==> !window_match(data@, j, sign@, mask),
        decreases end + 1 - i,
    {
        let window: &[u8] = &data[i..i + sign.len()];
        if data_compare(window, sign, mask) {
            return Some(i);
        }
        i += 1;
    }
    None
}

/// One span of a process's virtual address space with uniform allocation
/// state: its base address, its reported size, whether it is free
/// (unmapped), and the bytes that could be copied out of it. A partial copy
/// simply yields a shorter byte vector.
#[derive(Debug, Clone)]
pub struct MemoryRegion {
    pub base_address: usize,
    pub region_size: usize,
    pub free: bool,
    pub data: Vec<u8>,
}

/// The absolute address of the first signature match inside one queried
/// region: free regions hold no match, and a match at in-buffer offset `i`
/// lies at `base_address + i`, wrapping at the top of the address space.
pub open spec fn region_hit(region: MemoryRegion, sign: Seq<u8>, mask: &str) -> Option<usize> {
    if region.free {
        None
    } else {
        match first_window_match(region.data@, sign, mask) {
            Some(i) => Some(region.base_address.wrapping_add(i as usize)),
            None => None,
        }
    }
}

/// What one scan step decides: a match at an absolute address, or the
/// cursor to continue from.
#[derive(Debug, Clone, Copy, PartialEq, Eq, Structural)]
pub enum ScanOutcome {
    Match(usize),
    Advance(usize),
}

/// Decides one step of a region-by-region scan: search the queried region
/// unless it is free, and otherwise advance the cursor by the full region
/// size, wrapping rather than overflowing near the top of the address
/// space.
pub fn scan_step(cursor: usize, region: &MemoryRegion, sign: &[u8], mask: &str) -> (r: ScanOutcome)
    requires
        sign@.len() >= 1,
    ensures
        match r {
            ScanOutcome::Match(addr) => region_hit(*region, sign@, mask) == Some(addr),
            ScanOutcome::Advance(c) => region_hit(*region, sign@, mask) is None && c
                == cursor.wrapping_add(region.region_size),
        },
{
    if !region.free {
        if let Some(i) = scan_buffer(region.data.as_slice(), sign, mask) {
            proof {
                let w = choose|j: int| is_first_window_match(region.data@, j, sign@, mask);
                lemma_first_window_match_unique(region.data@, sign@, mask, w, i as int);
            }
            return ScanOutcome::Match(region.base_address.wrapping_add(i));
        }
    }
    ScanOutcome::Advance(cursor.wrapping_add(region.region_size))
}

/// The result of scanning a sequence of queried regions from a cursor:
/// the first match in the first non-free region that holds one, with the
/// cursor advanced by each region's full size, until the cursor leaves the
/// scanned range or the regions are exhausted.
pub open spec fn scan_spec(
    regions: Seq<MemoryRegion>,
    cursor: usize,
    size: usize,
    sign: Seq<u8>,
    mask: &str,
) -> Result<usize, Errors>
    decreases regions.len(),
{
    if cursor >= size || regions.len() == 0 {
        Err(Errors::SignatureNotFound)
    } else {
        match region_hit(regions[0], sign, mask) {
            Some(addr) => Ok(addr),
            None => scan_spec(
                regions.drop_first(),
                cursor.wrapping_add(regions[0].region_size),
                size,
                sign,
                mask,
            ),
        }
    }
}

/// Searches for a masked byte pattern across the given memory regions.
///
/// `regions` lists the outcome of querying the scanned range region by
/// region, in ascending address order, each with the bytes copied out of
/// it. The scan starts with cursor `0`, skips free regions, advances the
/// cursor by each region's full reported size (so a match can never span a
/// region boundary), and stops once the cursor reaches `size`. The first
/// match wins; a range without one is reported as `SignatureNotFound`.
pub fn find_signature(
    regions: &Vec<MemoryRegion>,
    size: usize,
    sign: &[u8],
    mask: &str,
) -> (r: Result<usize, Errors>)
    requires
        sign@.len() >= 1,
    ensures
        r == scan_spec(regions@, 0, size, sign@, mask),
{
    proof {
        assert(regions@.skip(0) =~= regions@);
    }
    let mut cursor: usize = 0;
    let mut k: usize = 0;
    while k < regions.len() && cursor < size
        invariant
            sign@.len() >= 1,
            k <= regions@.len(),
            scan_spec(regions@, 0, size, sign@, mask) == scan_spec(
                regions@.skip(k as int),
                cursor,
                size,
                sign@,
                mask,
            ),
        decreases regions@.len() - k,
    {
        proof {
            assert(regions@.skip(k as int)[0] == regions@[k as int]);
        }
        match scan_step(cursor, &regions[k], sign, mask) {
            ScanOutcome::Match(addr) => {
                return Ok(addr);
            },
            ScanOutcome::Advance(c) => {
                proof {
                    assert(regions@.skip(k as int).drop_first() =~= regions@.skip(k as int + 1));
                }
                cursor = c;
                k += 1;
            },
        }
    }
    Err(Errors::SignatureNotFound)
}

/// Scanning a range whose single queried region is resident and holds its
/// first signature match at offset `i` returns the match's true absolute
/// address: the region's base address plus `i`.
pub proof fn lemma_scan_single_region_hit(
    region: MemoryRegion,
    size: usize,
    sign: Seq<u8>,
    mask: &str,
    i: int,
)
    requires
        !region.free,
        size > 0,
        is_first_window_match(region.data@, i, sign, mask),
    ensures
        scan_spec(seq![region], 0, size, sign, mask) == Ok::<usize, Errors>(
            region.base_address.wrapping_add(i as usize),
        ),
{
    let w = choose|j: int| is_first_window_match(region.data@, j, sign, mask);
    lemma_first_window_match_unique(region.data@, sign, mask, w, i);
    assert(seq![region][0] == region);
}

/// Scanning a range none of whose queried regions contains an occurrence
/// of the signature fails with `SignatureNotFound`.
pub proof fn lemma_scan_no_match(
    regions: Seq<MemoryRegion>,
    cursor: usize,
    size: usize,
    sign: Seq<u8>,
    mask: &str,
)
    requires
        forall|k: int, j: int|
            0 <= k < regions.len() ==> !(#[trigger] window_match(regions[k].data@, j, sign, mask)),
    ensures
        scan_spec(regions, cursor, size, sign, mask) == Err::<usize, Errors>(
            Errors::SignatureNotFound,
        ),
    decreases regions.len(),
{
    if cursor >= size || regions.len() == 0 {
    } else {
        assert(region_hit(regions[0], sign, mask) is None);
        let rest = regions.drop_first();
        assert forall|k: int, j: int| 0 <= k < rest.len() implies !window_match(
            rest[k].data@,
            j,
            sign,
            mask,
        ) by {
            assert(rest[k] == regions[k + 1]);
        }
        lemma_scan_no_match(rest, cursor.wrapping_add(regions[0].region_size), size, sign, mask);
    }
}

/// True when `d` is the record the enumeration derives from the raw module
/// report `m`.
pub open spec fn module_record_of(m: ModuleSnapshot, d: ModuleData) -> bool {
    &&& d.module_name@ == displayed_name(m.name_buffer@)
    &&& d.module_addr == m.base_address
    &&& d.module_size == m.image_size
}

/// Populates `process_data` with a record for every reported module.
///
/// Records keep enumeration order, one per report even when names repeat;
/// a name that cannot be decoded falls back to a sentinel placeholder
/// rather than aborting the enumeration. Identifier and name of the record
/// are untouched.
pub fn process_modules(process_data: &mut ProcessData, modules: &Vec<ModuleSnapshot>)
    ensures
        final(process_data).id == old(process_data).id,
        final(process_data).name == old(process_data).name,
        final(process_data).module_list@.len() == modules@.len(),
        forall|k: int|
            0 <= k < modules@.len() ==> module_record_of(
                modules@[k],
                #[trigger] final(process_data).module_list@[k],
            ),
{
    let mut list: Vec<ModuleData> = Vec::new();
    let mut k: usize = 0;
    while k < modules.len()
        invariant
            k <= modules@.len(),
            list@.len() == k,
            forall|j: int| 0 <= j < k ==> module_record_of(modules@[j], #[trigger] list@[j]),
        decreases modules@.len() - k,
    {
        let m = &modules[k];
        let name = crate::types::display_name(m.name_buffer.as_slice());
        list.push(
            ModuleData {
                module_name: name,
                module_addr: m.base_address,
                module_size: m.image_size,
            },
        );
        k += 1;
    }
    process_data.module_list = list;
}

} // verus!
