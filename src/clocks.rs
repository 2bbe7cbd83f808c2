//! Clock tables of the three vendors behind one interface, and the range
//! checks on edits to them.
use vstd::prelude::*;
use amdgpu_sysfs::gpu_handle::overdrive::ClocksTableGen;
use indexmap::IndexMap;
use crate::ControlError;

verus! {

#[verifier::external_type_specification]
#[verifier::external_body]
pub struct ExClocksTableGen(ClocksTableGen);

/// The highest core clock of an AMD table.
pub uninterp spec fn amd_max_sclk(t: ClocksTableGen) -> Option<i32>;

/// The highest memory clock of an AMD table.
pub uninterp spec fn amd_max_mclk(t: ClocksTableGen) -> Option<i32>;

/// The voltage of the highest core clock level of an AMD table.
pub uninterp spec fn amd_max_voltage(t: ClocksTableGen) -> Option<i32>;

/// Relies on ClocksTable::get_max_sclk of amdgpu_sysfs, a function of the table.
#[verifier::external_body]
fn table_max_sclk(t: &ClocksTableGen) -> (r: Option<i32>)
    ensures
        r == amd_max_sclk(*t),
{
    amdgpu_sysfs::gpu_handle::overdrive::ClocksTable::get_max_sclk(t)
}

/// Relies on ClocksTable::get_max_mclk of amdgpu_sysfs, a function of the table.
#[verifier::external_body]
fn table_max_mclk(t: &ClocksTableGen) -> (r: Option<i32>)
    ensures
        r == amd_max_mclk(*t),
{
    amdgpu_sysfs::gpu_handle::overdrive::ClocksTable::get_max_mclk(t)
}

/// Relies on ClocksTable::get_max_sclk_voltage of amdgpu_sysfs, a function of the table.
#[verifier::external_body]
fn table_max_voltage(t: &ClocksTableGen) -> (r: Option<i32>)
    ensures
        r == amd_max_voltage(*t),
{
    amdgpu_sysfs::gpu_handle::overdrive::ClocksTable::get_max_sclk_voltage(t)
}

/// A clock offset at one point of an Nvidia table.
#[derive(Clone, Copy, Debug, PartialEq, Eq, Structural)]
pub struct NvidiaClockOffset {
    pub current: i32,
    pub min: i32,
    pub max: i32,
}

/// The offsets of an offset map, in their order.
pub uninterp spec fn offset_entries(m: IndexMap<u32, NvidiaClockOffset>) -> Seq<(u32, NvidiaClockOffset)>;

/// Relies on IndexMap::len: the number of entries.
#[verifier::external_body]
fn offsets_len(m: &IndexMap<u32, NvidiaClockOffset>) -> (r: usize)
    ensures
        r == offset_entries(*m).len(),
{
    m.len()
}

/// Relies on IndexMap::get_index: the entry at position `i`, if there is
/// one; a map holds each key once.
#[verifier::external_body]
fn offsets_get_index(m: &IndexMap<u32, NvidiaClockOffset>, i: usize) -> (r: Option<(&u32, &NvidiaClockOffset)>)
    ensures
        i < offset_entries(*m).len() <==> r is Some,
        r matches Some(e) ==> *e.0 == offset_entries(*m)[i as int].0 && *e.1 == offset_entries(*m)[i as int].1,
        r matches Some(e) ==> forall|j: int| 0 <= j < offset_entries(*m).len() && j != i ==> offset_entries(*m)[j].0 != *e.0,
{
    m.get_index(i)
}

/// Relies on IndexMap::insert: a new key goes last, an existing key keeps
/// its place and takes the new value.
#[verifier::external_body]
fn offsets_insert(m: &mut IndexMap<u32, NvidiaClockOffset>, k: u32, v: NvidiaClockOffset)
    ensures
        (forall|i: int| 0 <= i < offset_entries(*old(m)).len() ==> offset_entries(*old(m))[i].0 != k)
            ==> offset_entries(*final(m)) == offset_entries(*old(m)).push((k, v)),
        (exists|i: int| 0 <= i < offset_entries(*old(m)).len() && offset_entries(*old(m))[i].0 == k)
            ==> exists|i: int| 0 <= i < offset_entries(*old(m)).len() && offset_entries(*old(m))[i].0 == k
                && offset_entries(*final(m)) == offset_entries(*old(m)).update(i, (k, v)),
{
    m.insert(k, v);
}

/// The Nvidia clock table: offsets per point, and optional locked ranges
/// with the ranges they may take.
pub struct NvidiaClocksTable {
    pub gpu_offsets: IndexMap<u32, NvidiaClockOffset>,
    pub mem_offsets: IndexMap<u32, NvidiaClockOffset>,
    pub gpu_locked_clocks: Option<(u32, u32)>,
    pub vram_locked_clocks: Option<(u32, u32)>,
    pub gpu_clock_range: Option<(u32, u32)>,
    pub vram_clock_range: Option<(u32, u32)>,
}

/// The Intel clock table: the frequency range in use and the hardware's
/// minimal (`rpn`), efficient (`rpe`) and maximal (`rp0`) levels.
#[derive(Clone, Copy, Debug, PartialEq, Eq)]
pub struct IntelClocksTable {
    pub gt_freq: Option<(u64, u64)>,
    pub rpn_freq: Option<u64>,
    pub rpe_freq: Option<u64>,
    pub rp0_freq: Option<u64>,
}

/// The clock table of one device, of exactly one vendor.
pub enum ClocksTable {
    Amd(ClocksTableGen),
    Nvidia(NvidiaClocksTable),
    Intel(IntelClocksTable),
}

/// Vendor-independent maxima beside the raw table.
pub struct ClocksInfo {
    pub max_sclk: Option<i32>,
    pub max_mclk: Option<i32>,
    pub max_voltage: Option<i32>,
    pub table: Option<ClocksTable>,
}

impl ClocksInfo {
    /// Clock information of an AMD table, with the maxima read from it.
    pub fn from_amd(table: ClocksTableGen) -> (r: ClocksInfo)
        ensures
            r.max_sclk == amd_max_sclk(table),
            r.max_mclk == amd_max_mclk(table),
            r.max_voltage == amd_max_voltage(table),
            r.table == Some(ClocksTable::Amd(table)),
    {
        let max_sclk = table_max_sclk(&table);
        let max_mclk = table_max_mclk(&table);
        let max_voltage = table_max_voltage(&table);
        ClocksInfo { max_sclk, max_mclk, max_voltage, table: Some(ClocksTable::Amd(table)) }
    }
}


impl From<ClocksTableGen> for ClocksInfo {
    fn from(table: ClocksTableGen) -> (r: ClocksInfo) {
        ClocksInfo::from_amd(table)
    }
}

impl vstd::std_specs::convert::FromSpecImpl<ClocksTableGen> for ClocksInfo {
    open spec fn obeys_from_spec() -> bool {
        true
    }

    open spec fn from_spec(table: ClocksTableGen) -> ClocksInfo {
        ClocksInfo {
            max_sclk: amd_max_sclk(table),
            max_mclk: amd_max_mclk(table),
            max_voltage: amd_max_voltage(table),
            table: Some(ClocksTable::Amd(table)),
        }
    }
}

/// An edit to an Nvidia table: new offsets per point, new locked ranges.
pub struct NvidiaClocksDelta {
    pub gpu_offsets: Vec<(u32, i32)>,
    pub mem_offsets: Vec<(u32, i32)>,
    pub gpu_locked_clocks: Option<(u32, u32)>,
    pub vram_locked_clocks: Option<(u32, u32)>,
}

/// Whether the table has point `p.0`, once, and `p.1` lies within its bounds.
pub open spec fn offset_in_range(entries: Seq<(u32, NvidiaClockOffset)>, p: (u32, i32)) -> bool {
    exists|i: int| 0 <= i < entries.len() && entries[i].0 == p.0 && entries[i].1.min <= p.1 <= entries[i].1.max
        && forall|j: int| 0 <= j < entries.len() && j != i ==> entries[j].0 != p.0
}

/// Whether every point of the edit is in range.
pub open spec fn offsets_in_range(entries: Seq<(u32, NvidiaClockOffset)>, d: Seq<(u32, i32)>) -> bool {
    forall|j: int| 0 <= j < d.len() ==> #[trigger] offset_in_range(entries, d[j])
}

/// Whether a locked range is ordered and lies within the allowed range,
/// where one is advertised.
pub open spec fn locked_in_range(locked: Option<(u32, u32)>, allowed: Option<(u32, u32)>) -> bool {
    match locked {
        None => true,
        Some(l) => l.0 <= l.1 && match allowed {
            None => true,
            Some(a) => a.0 <= l.0 && l.1 <= a.1,
        },
    }
}

/// The offset after the edit: the last value given for its point, if any.
pub open spec fn patched(key: u32, o: NvidiaClockOffset, d: Seq<(u32, i32)>) -> NvidiaClockOffset
    decreases d.len(),
{
    if d.len() == 0 {
        o
    } else if d.last().0 == key {
        NvidiaClockOffset { current: d.last().1, ..o }
    } else {
        patched(key, o, d.drop_last())
    }
}

proof fn lemma_patched_bounds(key: u32, o: NvidiaClockOffset, d: Seq<(u32, i32)>)
    ensures
        patched(key, o, d).min == o.min && patched(key, o, d).max == o.max,
    decreases d.len(),
{
    if d.len() > 0 {
        lemma_patched_bounds(key, o, d.drop_last());
    }
}

/// Every point that the edit names keeps its place and bounds and now
/// holds an offset within those bounds.
pub open spec fn edited_in_bounds(
    before: Seq<(u32, NvidiaClockOffset)>,
    after: Seq<(u32, NvidiaClockOffset)>,
    d: Seq<(u32, i32)>,
) -> bool {
    &&& after.len() == before.len()
    &&& forall|t: int| 0 <= t < before.len() && edits_point(d, before[t].0) ==> point_in_bounds(before[t], #[trigger] after[t])
}

/// The point keeps its key and bounds, and its offset lies within them.
pub open spec fn point_in_bounds(before: (u32, NvidiaClockOffset), after: (u32, NvidiaClockOffset)) -> bool {
    &&& after.0 == before.0
    &&& after.1.min == before.1.min && after.1.max == before.1.max
    &&& before.1.min <= after.1.current <= before.1.max
}

/// Every offset of a table after the edit.
pub open spec fn patched_all(entries: Seq<(u32, NvidiaClockOffset)>, d: Seq<(u32, i32)>) -> Seq<(u32, NvidiaClockOffset)> {
    entries.map_values(|e: (u32, NvidiaClockOffset)| (e.0, patched(e.0, e.1, d)))
}

impl NvidiaClocksTable {
    pub open spec fn delta_in_range(&self, d: NvidiaClocksDelta) -> bool {
        &&& offsets_in_range(offset_entries(self.gpu_offsets), d.gpu_offsets@)
        &&& offsets_in_range(offset_entries(self.mem_offsets), d.mem_offsets@)
        &&& locked_in_range(d.gpu_locked_clocks, self.gpu_clock_range)
        &&& locked_in_range(d.vram_locked_clocks, self.vram_clock_range)
    }

    /// Applies an edit whose every value lies within the advertised bounds;
    /// rejects any other, leaving the table as it was.
    pub fn apply_delta(&mut self, d: &NvidiaClocksDelta) -> (r: Result<(), ControlError>)
        ensures
            r is Ok <==> old(self).delta_in_range(*d),
            r is Err ==> r == Err::<(), ControlError>(ControlError::OutOfRange) && *final(self) == *old(self),
            r is Ok ==> offset_entries(final(self).gpu_offsets) == patched_all(offset_entries(old(self).gpu_offsets), d.gpu_offsets@),
            r is Ok ==> offset_entries(final(self).mem_offsets) == patched_all(offset_entries(old(self).mem_offsets), d.mem_offsets@),
            r is Ok ==> edited_in_bounds(offset_entries(old(self).gpu_offsets), offset_entries(final(self).gpu_offsets), d.gpu_offsets@),
            r is Ok ==> edited_in_bounds(offset_entries(old(self).mem_offsets), offset_entries(final(self).mem_offsets), d.mem_offsets@),
            r is Ok ==> final(self).gpu_locked_clocks == match d.gpu_locked_clocks {
                Some(l) => Some(l),
                None => old(self).gpu_locked_clocks,
            },
            r is Ok ==> final(self).vram_locked_clocks == match d.vram_locked_clocks {
                Some(l) => Some(l),
                None => old(self).vram_locked_clocks,
            },
            r is Ok ==> final(self).gpu_clock_range == old(self).gpu_clock_range
                && final(self).vram_clock_range == old(self).vram_clock_range,
    {
        if !check_offsets(&self.gpu_offsets, &d.gpu_offsets) || !check_offsets(&self.mem_offsets, &d.mem_offsets)
            || !check_locked(d.gpu_locked_clocks, self.gpu_clock_range)
            || !check_locked(d.vram_locked_clocks, self.vram_clock_range) {
            return Err(ControlError::OutOfRange);
        }
        proof {
            lemma_edited_in_bounds(offset_entries(self.gpu_offsets), d.gpu_offsets@);
            lemma_edited_in_bounds(offset_entries(self.mem_offsets), d.mem_offsets@);
        }
        patch_offsets(&mut self.gpu_offsets, &d.gpu_offsets);
        patch_offsets(&mut self.mem_offsets, &d.mem_offsets);
        if let Some(l) = d.gpu_locked_clocks {
            self.gpu_locked_clocks = Some(l);
        }
        if let Some(l) = d.vram_locked_clocks {
            self.vram_locked_clocks = Some(l);
        }
        Ok(())
    }
}

fn check_locked(locked: Option<(u32, u32)>, allowed: Option<(u32, u32)>) -> (r: bool)
    ensures
        r == locked_in_range(locked, allowed),
{
    match locked {
        None => true,
        Some(l) => l.0 <= l.1 && match allowed {
            None => true,
            Some(a) => a.0 <= l.0 && l.1 <= a.1,
        },
    }
}

/// The position of point `key` in the map, if it has one.
fn find_point(m: &IndexMap<u32, NvidiaClockOffset>, key: u32) -> (r: Option<usize>)
    ensures
        r is None ==> forall|i: int| 0 <= i < offset_entries(*m).len() ==> offset_entries(*m)[i].0 != key,
        r matches Some(i) ==> i < offset_entries(*m).len() && offset_entries(*m)[i as int].0 == key
            && forall|j: int| 0 <= j < offset_entries(*m).len() && j != i ==> offset_entries(*m)[j].0 != key,
{
    let n = offsets_len(m);
    let mut i: usize = 0;
    while i < n
        invariant
            n == offset_entries(*m).len(),
            i <= n,
            forall|t: int| 0 <= t < i ==> offset_entries(*m)[t].0 != key,
        decreases n - i,
    {
        match offsets_get_index(m, i) {
            Some(e) => {
                if *e.0 == key {
                    return Some(i);
                }
            },
            None => {},
        }
        i = i + 1;
    }
    None
}

fn check_offsets(m: &IndexMap<u32, NvidiaClockOffset>, d: &Vec<(u32, i32)>) -> (r: bool)
    ensures
        r == offsets_in_range(offset_entries(*m), d@),
{
    let mut j: usize = 0;
    while j < d.len()
        invariant
            j <= d@.len(),
            forall|t: int| 0 <= t < j ==> #[trigger] offset_in_range(offset_entries(*m), d@[t]),
        decreases d@.len() - j,
    {
        let p = d[j];
        match find_point(m, p.0) {
            None => {
                assert(!offset_in_range(offset_entries(*m), d@[j as int]));
                return false;
            },
            Some(i) => {
                let e = offsets_get_index(m, i);
                match e {
                    Some(e) => {
                        if p.1 < e.1.min || p.1 > e.1.max {
                            assert(!offset_in_range(offset_entries(*m), d@[j as int]));
                            return false;
                        }
                    },
                    None => {},
                }
            },
        }
        j = j + 1;
    }
    true
}

fn patch_offsets(m: &mut IndexMap<u32, NvidiaClockOffset>, d: &Vec<(u32, i32)>)
    requires
        offsets_in_range(offset_entries(*old(m)), d@),
    ensures
        offset_entries(*final(m)) == patched_all(offset_entries(*old(m)), d@),
{
    let ghost start = offset_entries(*m);
    let mut j: usize = 0;
    assert(patched_all(start, d@.subrange(0, 0)) =~= start) by {
        assert forall|t: int| 0 <= t < start.len() implies patched(start[t].0, start[t].1, d@.subrange(0, 0)) == start[t].1 by {}
    }
    while j < d.len()
        invariant
            j <= d@.len(),
            offsets_in_range(start, d@),
            offset_entries(*m).len() == start.len(),
            offset_entries(*m) == patched_all(start, d@.subrange(0, j as int)),
        decreases d@.len() - j,
    {
        let p = d[j];
        assert(offset_in_range(start, d@[j as int]));
        let ghost cur = offset_entries(*m);
        match find_point(m, p.0) {
            None => {
                proof {
                    let t = choose|t: int| 0 <= t < start.len() && start[t].0 == p.0 && start[t].1.min <= p.1 <= start[t].1.max;
                    assert(cur[t].0 == start[t].0);
                }
            },
            Some(i) => {
                match offsets_get_index(m, i) {
                    Some(e) => {
                        let o = *e.1;
                        offsets_insert(m, p.0, NvidiaClockOffset { current: p.1, min: o.min, max: o.max });
                        proof {
                            let sub = d@.subrange(0, j as int);
                            let sub1 = d@.subrange(0, j + 1);
                            assert(sub1.drop_last() =~= sub);
                            assert(sub1.last() == p);
                            assert(offset_entries(*m) =~= patched_all(start, sub1)) by {
                                assert(cur[i as int].0 == p.0);
                                let k = choose|k: int| 0 <= k < cur.len() && cur[k].0 == p.0
                                    && offset_entries(*m) == cur.update(k, (p.0, NvidiaClockOffset { current: p.1, min: o.min, max: o.max }));
                                assert(k == i);
                                assert forall|t: int| 0 <= t < start.len() implies
                                    offset_entries(*m)[t] == (start[t].0, patched(start[t].0, start[t].1, sub1)) by {
                                    assert(cur[t] == (start[t].0, patched(start[t].0, start[t].1, sub)));
                                    lemma_patched_bounds(start[t].0, start[t].1, sub);
                                }
                            }
                        }
                    },
                    None => {},
                }
            },
        }
        j = j + 1;
    }
    assert(d@.subrange(0, d@.len() as int) =~= d@);
}


/// Whether the edit gives a value for point `key`.
pub open spec fn edits_point(d: Seq<(u32, i32)>, key: u32) -> bool {
    exists|j: int| 0 <= j < d.len() && d[j].0 == key
}

/// After an edit that was accepted, every point that the edit names holds
/// an offset within the bounds that the table advertises for it.
pub proof fn lemma_applied_offsets_in_range(entries: Seq<(u32, NvidiaClockOffset)>, d: Seq<(u32, i32)>)
    requires
        offsets_in_range(entries, d),
    ensures
        forall|t: int| 0 <= t < entries.len() && edits_point(d, entries[t].0) ==>
            entries[t].1.min <= #[trigger] patched_all(entries, d)[t].1.current <= entries[t].1.max,
    decreases d.len(),
{
    if d.len() > 0 {
        let rest = d.drop_last();
        assert(offsets_in_range(entries, rest)) by {
            assert forall|j: int| 0 <= j < rest.len() implies #[trigger] offset_in_range(entries, rest[j]) by {
                assert(offset_in_range(entries, d[j]));
            }
        }
        lemma_applied_offsets_in_range(entries, rest);
        assert forall|t: int| 0 <= t < entries.len() && edits_point(d, entries[t].0) implies
            entries[t].1.min <= #[trigger] patched_all(entries, d)[t].1.current <= entries[t].1.max by {
            let key = entries[t].0;
            if d.last().0 == key {
                assert(offset_in_range(entries, d[d.len() - 1]));
            } else {
                let j = choose|j: int| 0 <= j < d.len() && d[j].0 == key;
                assert(j != d.len() - 1);
                assert(rest[j] == d[j]);
                assert(patched_all(entries, rest)[t].1.current <= entries[t].1.max);
            }
        }
    }
}

proof fn lemma_edited_in_bounds(entries: Seq<(u32, NvidiaClockOffset)>, d: Seq<(u32, i32)>)
    requires
        offsets_in_range(entries, d),
    ensures
        edited_in_bounds(entries, patched_all(entries, d), d),
{
    lemma_applied_offsets_in_range(entries, d);
    let after = patched_all(entries, d);
    assert forall|t: int| 0 <= t < entries.len() && edits_point(d, entries[t].0) implies point_in_bounds(entries[t], #[trigger] after[t]) by {
        lemma_patched_bounds(entries[t].0, entries[t].1, d);
        assert(after[t] == (entries[t].0, patched(entries[t].0, entries[t].1, d)));
        assert(entries[t].1.min <= patched_all(entries, d)[t].1.current <= entries[t].1.max);
    }
    assert(after.len() == entries.len());
}

/// An edit to the clock table of one vendor.
pub enum ClocksDelta {
    /// A whole AMD table, which validates itself.
    Amd(ClocksTableGen),
    Nvidia(NvidiaClocksDelta),
    /// A new frequency range for an Intel device.
    Intel((u64, u64)),
}

/// Whether an Intel range is ordered and within the hardware's levels, where
/// they are known.
pub open spec fn intel_range_ok(t: IntelClocksTable, r: (u64, u64)) -> bool {
    &&& r.0 <= r.1
    &&& t.rpn_freq matches Some(n) ==> n <= r.0
    &&& t.rp0_freq matches Some(m) ==> r.1 <= m
}

/// What applying `delta` to `before` gives: `after` and the outcome `r`.
pub open spec fn apply_outcome(before: ClocksTable, delta: ClocksDelta, after: ClocksTable, r: Result<(), ControlError>) -> bool {
    match (before, delta) {
        (ClocksTable::Amd(_), ClocksDelta::Amd(t)) => r is Ok && after == ClocksTable::Amd(t),
        (ClocksTable::Nvidia(n), ClocksDelta::Nvidia(d)) => (r is Ok <==> n.delta_in_range(d))
            && (r is Err ==> r == Err::<(), ControlError>(ControlError::OutOfRange))
            && (r is Ok ==> (after matches ClocksTable::Nvidia(m)
                && offset_entries(m.gpu_offsets) == patched_all(offset_entries(n.gpu_offsets), d.gpu_offsets@)
                && offset_entries(m.mem_offsets) == patched_all(offset_entries(n.mem_offsets), d.mem_offsets@)
                && edited_in_bounds(offset_entries(n.gpu_offsets), offset_entries(m.gpu_offsets), d.gpu_offsets@)
                && edited_in_bounds(offset_entries(n.mem_offsets), offset_entries(m.mem_offsets), d.mem_offsets@)
                && m.gpu_locked_clocks == match d.gpu_locked_clocks { Some(l) => Some(l), None => n.gpu_locked_clocks }
                && m.vram_locked_clocks == match d.vram_locked_clocks { Some(l) => Some(l), None => n.vram_locked_clocks }
                && m.gpu_clock_range == n.gpu_clock_range && m.vram_clock_range == n.vram_clock_range)),
        (ClocksTable::Intel(t), ClocksDelta::Intel(f)) => (r is Ok <==> intel_range_ok(t, f))
            && (r is Err ==> r == Err::<(), ControlError>(ControlError::OutOfRange))
            && (r is Ok ==> after == ClocksTable::Intel(IntelClocksTable { gt_freq: Some(f), ..t })),
        _ => r == Err::<(), ControlError>(ControlError::MismatchedVendor),
    }
}

impl ClocksTable {
    /// Applies an edit of the table's own vendor: an AMD table replaces the
    /// whole table, an Nvidia or Intel edit is checked against the advertised
    /// bounds first. Nothing changes on an error.
    pub fn apply(&mut self, delta: ClocksDelta) -> (r: Result<(), ControlError>)
        ensures
            r is Err ==> *final(self) == *old(self),
            apply_outcome(*old(self), delta, *final(self), r),
    {
        match delta {
            ClocksDelta::Amd(t) => {
                if let ClocksTable::Amd(_) = self {
                    *self = ClocksTable::Amd(t);
                    Ok(())
                } else {
                    Err(ControlError::MismatchedVendor)
                }
            },
            ClocksDelta::Nvidia(d) => match self {
                ClocksTable::Nvidia(n) => n.apply_delta(&d),
                _ => Err(ControlError::MismatchedVendor),
            },
            ClocksDelta::Intel(f) => match self {
                ClocksTable::Intel(t) => {
                    if f.0 > f.1 {
                        return Err(ControlError::OutOfRange);
                    }
                    if let Some(n) = t.rpn_freq {
                        if n > f.0 {
                            return Err(ControlError::OutOfRange);
                        }
                    }
                    if let Some(m) = t.rp0_freq {
                        if f.1 > m {
                            return Err(ControlError::OutOfRange);
                        }
                    }
                    t.gt_freq = Some(f);
                    Ok(())
                },
                _ => Err(ControlError::MismatchedVendor),
            },
        }
    }
}


/// The clock state of one device as last read from the hardware.
pub struct ClockControl {
    /// The last reading; none once it may no longer match the hardware.
    pub cached: Option<ClocksInfo>,
}

impl ClockControl {
    pub fn new() -> (r: ClockControl)
        ensures
            r.cached is None,
    {
        ClockControl { cached: None }
    }

    /// Records what was just read from the hardware.
    pub fn refresh(&mut self, info: ClocksInfo)
        ensures
            final(self).cached == Some(info),
    {
        self.cached = Some(info);
    }

    /// The last reading, if it still stands; none where the hardware must be
    /// read again.
    pub fn read(&self) -> (r: Option<&ClocksInfo>)
        ensures
            r == match self.cached {
                Some(i) => Some(&i),
                None => None::<&ClocksInfo>,
            },
    {
        match &self.cached {
            Some(i) => Some(i),
            None => None,
        }
    }

    /// Checks `delta` against the table last read and returns the edited
    /// table to write to the hardware. On success the reading is dropped, so
    /// that the next read shows what the hardware took; without a table the
    /// vendor cannot be matched. On an error nothing changes.
    pub fn apply(&mut self, delta: ClocksDelta) -> (r: Result<ClocksTable, ControlError>)
        ensures
            r is Ok ==> final(self).cached is None,
            r is Err ==> *final(self) == *old(self),
            match old(self).cached {
                Some(ClocksInfo { table: Some(before), .. }) => match r {
                    Ok(after) => apply_outcome(before, delta, after, Ok(())),
                    Err(e) => apply_outcome(before, delta, before, Err(e)),
                },
                _ => r == Err::<ClocksTable, ControlError>(ControlError::MismatchedVendor),
            },
    {
        let cached = self.cached.take();
        match cached {
            None => Err(ControlError::MismatchedVendor),
            Some(info) => {
                let ClocksInfo { max_sclk, max_mclk, max_voltage, table } = info;
                match table {
                    None => {
                        self.cached = Some(ClocksInfo { max_sclk, max_mclk, max_voltage, table: None });
                        Err(ControlError::MismatchedVendor)
                    },
                    Some(t) => {
                        let mut t = t;
                        match t.apply(delta) {
                            Ok(()) => Ok(t),
                            Err(e) => {
                                self.cached = Some(ClocksInfo { max_sclk, max_mclk, max_voltage, table: Some(t) });
                                Err(e)
                            },
                        }
                    },
                }
            },
        }
    }
}

} // verus!
