use vstd::prelude::*;

use crate::error::{SysError, SysErrorV, WinError};

verus! {

/// Win32 status of a successful call.
pub const ERROR_SUCCESS_CODE: u32 = 0;

/// Win32 status returned when the calling process has no access to the
/// current desktop or runs in a remote session.
pub const ERROR_ACCESS_DENIED_CODE: u32 = 5;

/// The mode-entry classification that marks a target (output) mode.
pub const MODE_INFO_TYPE_TARGET: i32 = 2;

/// One entry of the filled display-mode array, reduced to the fields the
/// engine reads: its classification and the identifiers a per-target query
/// needs.
#[derive(Clone, Copy, Debug, PartialEq, Eq, Structural)]
pub struct DisplayModeInfo {
    pub info_type: i32,
    pub id: u32,
    pub adapter_id_low: u32,
    pub adapter_id_high: i32,
}

/// The outcome of one per-target device-info query: the status the call
/// returned, and — meaningful only on success — the device identity path and
/// output technology it reported.
#[derive(Clone, Debug)]
pub struct TargetQueryResult {
    pub status: u32,
    pub device_path: Vec<u16>,
    pub output_technology: i32,
}

/// One retained target entry: a device identity path and its technology.
#[derive(Clone, Debug)]
pub struct TargetDeviceInfo {
    pub device_path: Vec<u16>,
    pub output_technology: i32,
}

pub open spec fn spec_is_target_mode(m: DisplayModeInfo) -> bool {
    m.info_type == MODE_INFO_TYPE_TARGET
}

/// The subsequence of target-classified mode entries, order preserved.
pub open spec fn spec_target_modes(s: Seq<DisplayModeInfo>) -> Seq<DisplayModeInfo>
    decreases s.len(),
{
    if s.len() == 0 {
        Seq::empty()
    } else {
        let rest = spec_target_modes(s.drop_last());
        if spec_is_target_mode(s.last()) {
            rest.push(s.last())
        } else {
            rest
        }
    }
}

/// Retains only the mode entries classified as targets, in order.
pub fn filter_target_modes(modes: &Vec<DisplayModeInfo>) -> (r: Vec<DisplayModeInfo>)
    ensures
        r@ == spec_target_modes(modes@),
{
    let mut r: Vec<DisplayModeInfo> = Vec::new();
    let mut i: usize = 0;
    while i < modes.len()
        invariant
            0 <= i <= modes@.len(),
            r@ == spec_target_modes(modes@.take(i as int)),
        decreases modes@.len() - i,
    {
        assert(modes@.take(i + 1).drop_last() =~= modes@.take(i as int));
        if modes[i].info_type == MODE_INFO_TYPE_TARGET {
            r.push(modes[i]);
        }
        i += 1;
    }
    assert(modes@.take(modes@.len() as int) =~= modes@);
    r
}

/// The mapping an entry list denotes, inserted in order: a later entry for
/// the same identity path overwrites an earlier one.
pub open spec fn spec_map_of(entries: Seq<TargetDeviceInfo>) -> Map<Seq<u16>, i32>
    decreases entries.len(),
{
    if entries.len() == 0 {
        Map::empty()
    } else {
        spec_map_of(entries.drop_last()).insert(
            entries.last().device_path@,
            entries.last().output_technology,
        )
    }
}

/// A mapping from device identity path to output technology, with
/// last-write-wins insertion.
pub struct DeviceInfoMap {
    entries: Vec<TargetDeviceInfo>,
}

impl View for DeviceInfoMap {
    type V = Map<Seq<u16>, i32>;

    closed spec fn view(&self) -> Map<Seq<u16>, i32> {
        spec_map_of(self.entries@)
    }
}

impl DeviceInfoMap {
    pub fn new() -> (r: Self)
        ensures
            r@ == Map::<Seq<u16>, i32>::empty(),
    {
        DeviceInfoMap { entries: Vec::new() }
    }

    pub fn insert(&mut self, device_path: Vec<u16>, output_technology: i32)
        ensures
            final(self)@ == old(self)@.insert(device_path@, output_technology),
    {
        let ghost before = self.entries@;
        self.entries.push(TargetDeviceInfo { device_path, output_technology });
        proof {
            assert(self.entries@.drop_last() =~= before);
        }
    }

    /// The technology recorded for an identity path, or `None` when the path
    /// has no entry.
    pub fn get(&self, device_path: &Vec<u16>) -> (r: Option<i32>)
        ensures
            r == (if self@.contains_key(device_path@) {
                Some(self@[device_path@])
            } else {
                None::<i32>
            }),
    {
        let mut found: Option<i32> = None;
        let mut i: usize = 0;
        while i < self.entries.len()
            invariant
                0 <= i <= self.entries@.len(),
                found == (if spec_map_of(self.entries@.take(i as int)).contains_key(device_path@) {
                    Some(spec_map_of(self.entries@.take(i as int))[device_path@])
                } else {
                    None::<i32>
                }),
            decreases self.entries@.len() - i,
        {
            assert(self.entries@.take(i + 1).drop_last() =~= self.entries@.take(i as int));
            let entry = &self.entries[i];
            if eq_wide(&entry.device_path, device_path) {
                found = Some(entry.output_technology);
            }
            i += 1;
        }
        assert(self.entries@.take(self.entries@.len() as int) =~= self.entries@);
        found
    }
}

/// Exact equality of two wide-string keys, unit for unit.
pub fn eq_wide(a: &Vec<u16>, b: &Vec<u16>) -> (r: bool)
    ensures
        r == (a@ == b@),
{
    if a.len() != b.len() {
        assert(a@ != b@);
        return false;
    }
    let mut i: usize = 0;
    while i < a.len()
        invariant
            0 <= i <= a@.len(),
            a@.len() == b@.len(),
            forall|j: int| 0 <= j < i ==> a@[j] == b@[j],
        decreases a@.len() - i,
    {
        if a[i] != b[i] {
            return false;
        }
        i += 1;
    }
    assert(a@ =~= b@);
    true
}

/// What building the index from the per-target query outcomes denotes:
/// successes are inserted in order (a duplicate path is overwritten by the
/// later entry), access-denied entries are skipped, and the first other
/// failure is the whole build's error.
pub open spec fn spec_build_device_info_map(rs: Seq<TargetQueryResult>) -> Result<
    Map<Seq<u16>, i32>,
    SysErrorV,
>
    decreases rs.len(),
{
    if rs.len() == 0 {
        Ok(Map::empty())
    } else {
        match spec_build_device_info_map(rs.drop_last()) {
            Err(e) => Err(e),
            Ok(m) => {
                let last = rs.last();
                if last.status == ERROR_SUCCESS_CODE {
                    Ok(m.insert(last.device_path@, last.output_technology))
                } else if last.status == ERROR_ACCESS_DENIED_CODE {
                    Ok(m)
                } else {
                    Err(
                        SysErrorV::DisplayConfigGetDeviceInfoFailed(
                            WinError { code: win32_to_hresult(last.status) },
                        ),
                    )
                }
            },
        }
    }
}

/// The HRESULT that stands for a Win32 status code: a code that is already
/// zero or has its high bit set passes through; any other is marked failed
/// with the Win32 facility.
pub open spec fn win32_to_hresult(status: u32) -> i32 {
    if status as i32 <= 0 {
        status as i32
    } else {
        ((status & 0xFFFF) | 0x8007_0000) as i32
    }
}

/// Converts a Win32 status code to its HRESULT form.
pub fn win32_error_to_hresult(status: u32) -> (r: i32)
    ensures
        r == win32_to_hresult(status),
{
    if status as i32 <= 0 {
        status as i32
    } else {
        ((status & 0xFFFF) | 0x8007_0000) as i32
    }
}

/// A failing entry after an error-free prefix decides the whole build:
/// whatever follows it, the build's result is that entry's error.
proof fn lemma_build_fails_at(rs: Seq<TargetQueryResult>, i: int)
    requires
        0 <= i < rs.len(),
        spec_build_device_info_map(rs.take(i)) is Ok,
        rs[i].status != ERROR_SUCCESS_CODE,
        rs[i].status != ERROR_ACCESS_DENIED_CODE,
    ensures
        spec_build_device_info_map(rs) == Err::<Map<Seq<u16>, i32>, SysErrorV>(
            SysErrorV::DisplayConfigGetDeviceInfoFailed(
                WinError { code: win32_to_hresult(rs[i].status) },
            ),
        ),
    decreases rs.len(),
{
    if rs.len() == i + 1 {
        assert(rs.take(i) =~= rs.drop_last());
    } else {
        assert(rs.drop_last().take(i) =~= rs.take(i));
        lemma_build_fails_at(rs.drop_last(), i);
    }
}

/// Builds the index from device identity path to output technology out of
/// the per-target query outcomes, skipping access-denied entries and failing
/// on the first other failure.
pub fn build_device_info_map(results: Vec<TargetQueryResult>) -> (r: Result<
    DeviceInfoMap,
    SysError,
>)
    ensures
        match spec_build_device_info_map(results@) {
            Ok(m) => r matches Ok(d) && d@ == m,
            Err(e) => r matches Err(s) && s@ == e,
        },
{
    let mut map = DeviceInfoMap::new();
    let mut i: usize = 0;
    while i < results.len()
        invariant
            0 <= i <= results@.len(),
            spec_build_device_info_map(results@.take(i as int)) == Ok::<_, SysErrorV>(map@),
        decreases results@.len() - i,
    {
        assert(results@.take(i + 1).drop_last() =~= results@.take(i as int));
        let entry = &results[i];
        if entry.status == ERROR_SUCCESS_CODE {
            map.insert(entry.device_path.clone(), entry.output_technology);
        } else if entry.status != ERROR_ACCESS_DENIED_CODE {
            let code = win32_error_to_hresult(entry.status);
            proof {
                lemma_build_fails_at(results@, i as int);
            }
            return Err(SysError::DisplayConfigGetDeviceInfoFailed(WinError { code }));
        }
        i += 1;
    }
    assert(results@.take(results@.len() as int) =~= results@);
    Ok(map)
}

} // verus!
