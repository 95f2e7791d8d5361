use vstd::prelude::*;

use crate::error::{SysError, SysErrorV, WinError};
use crate::info_map::{
    build_device_info_map, spec_build_device_info_map, DeviceInfoMap, TargetQueryResult,
};
use crate::wide::{decoded_wide, wchar_to_string};

verus! {

/// Output-technology value that classifies a display as an internal panel.
/// The platform defines it as the lowest 32-bit signed value.
pub const OUTPUT_TECHNOLOGY_INTERNAL: i32 = -2147483647 - 1;

/// State flag marking a display device as currently active.
pub const DISPLAY_DEVICE_ACTIVE: u32 = 1;

/// HRESULT form of the access-denied error, the expected failure for
/// virtual and remote-session displays.
pub const ACCESS_DENIED_HRESULT: i32 = -2147024891;

/// A rectangle in screen coordinates.
#[derive(Clone, Copy, Debug, PartialEq, Eq, Structural)]
pub struct Rect {
    pub left: i32,
    pub top: i32,
    pub right: i32,
    pub bottom: i32,
}

/// The OS-reported identity bundle of one display device, with its raw
/// fixed-width wide-string fields and state flags.
#[derive(Clone, Debug)]
pub struct DisplayDeviceRecord {
    pub device_name: Vec<u16>,
    pub device_string: Vec<u16>,
    pub device_key: Vec<u16>,
    pub device_id: Vec<u16>,
    pub state_flags: u32,
}

/// What the per-monitor info query reports: the monitor's bounds, its
/// work-area bounds, and the raw device records walked for it in slot order.
#[derive(Clone, Debug)]
pub struct MonitorInfoData {
    pub size: Rect,
    pub work_area_size: Rect,
    pub devices: Vec<DisplayDeviceRecord>,
}

/// Model of a handle guard: the raw handle value and whether the paired
/// release has already been taken.
pub ghost struct HandleGuardV {
    pub handle: isize,
    pub released: bool,
}

/// Owns one physical-monitor handle. The raw handle can be read for
/// diagnostics but leaves the guard only through `release`, which can be
/// taken at most once; the caller then performs the paired platform release.
#[derive(Debug)]
pub struct WrappedPhysicalMonitor {
    handle: isize,
    released: bool,
}

impl View for WrappedPhysicalMonitor {
    type V = HandleGuardV;

    closed spec fn view(&self) -> HandleGuardV {
        HandleGuardV { handle: self.handle, released: self.released }
    }
}

impl WrappedPhysicalMonitor {
    pub fn new(handle: isize) -> (r: Self)
        ensures
            r@ == (HandleGuardV { handle, released: false }),
    {
        WrappedPhysicalMonitor { handle, released: false }
    }

    /// The raw numeric handle value, for diagnostics; the handle itself
    /// stays owned by the guard.
    pub fn handle_value(&self) -> (r: isize)
        ensures
            r == self@.handle,
    {
        self.handle
    }

    /// Takes the handle out for its one release. A guard that was already
    /// released cannot be released again.
    pub fn release(&mut self) -> (r: isize)
        requires
            !old(self)@.released,
        ensures
            final(self)@ == (HandleGuardV { handle: old(self)@.handle, released: true }),
            r == old(self)@.handle,
    {
        self.released = true;
        self.handle
    }
}

/// Owns one control file handle, with the same once-only release discipline
/// as `WrappedPhysicalMonitor`.
#[derive(Debug)]
pub struct WrappedFileHandle {
    handle: isize,
    released: bool,
}

impl View for WrappedFileHandle {
    type V = HandleGuardV;

    closed spec fn view(&self) -> HandleGuardV {
        HandleGuardV { handle: self.handle, released: self.released }
    }
}

impl WrappedFileHandle {
    pub fn new(handle: isize) -> (r: Self)
        ensures
            r@ == (HandleGuardV { handle, released: false }),
    {
        WrappedFileHandle { handle, released: false }
    }

    /// The raw numeric handle value, for diagnostics.
    pub fn handle_value(&self) -> (r: isize)
        ensures
            r == self@.handle,
    {
        self.handle
    }

    /// Takes the handle out for its one release.
    pub fn release(&mut self) -> (r: isize)
        requires
            !old(self)@.released,
        ensures
            final(self)@ == (HandleGuardV { handle: old(self)@.handle, released: true }),
            r == old(self)@.handle,
    {
        self.released = true;
        self.handle
    }
}

/// Final lightweight record for one active display device.
#[derive(Clone, Debug)]
pub struct Device {
    pub hmonitor: isize,
    pub size: Rect,
    pub work_area_size: Rect,
    pub device_name: String,
    /// The description is a marketing name and is not guaranteed unique.
    pub device_description: String,
    pub device_key: String,
    /// DOS-device-path-formatted identity string; the join key against
    /// target-info metadata.
    pub device_path: String,
    pub output_technology: i32,
}

/// Mathematical model of `Device`.
pub ghost struct DeviceV {
    pub hmonitor: isize,
    pub size: Rect,
    pub work_area_size: Rect,
    pub device_name: Seq<char>,
    pub device_description: Seq<char>,
    pub device_key: Seq<char>,
    pub device_path: Seq<char>,
    pub output_technology: i32,
}

impl View for Device {
    type V = DeviceV;

    open spec fn view(&self) -> DeviceV {
        DeviceV {
            hmonitor: self.hmonitor,
            size: self.size,
            work_area_size: self.work_area_size,
            device_name: self.device_name@,
            device_description: self.device_description@,
            device_key: self.device_key@,
            device_path: self.device_path@,
            output_technology: self.output_technology,
        }
    }
}

/// Final record for one active display device, additionally owning its
/// physical-monitor handle and control file handle.
#[derive(Debug)]
pub struct PhysicalDevice {
    pub hmonitor: isize,
    pub size: Rect,
    pub work_area_size: Rect,
    pub physical_monitor: WrappedPhysicalMonitor,
    pub file_handle: WrappedFileHandle,
    pub device_name: String,
    /// The description is a marketing name and is not guaranteed unique.
    pub device_description: String,
    pub device_key: String,
    /// DOS-device-path-formatted identity string; the join key against
    /// target-info metadata.
    pub device_path: String,
    pub output_technology: i32,
}

/// Mathematical model of `PhysicalDevice`.
pub ghost struct PhysicalDeviceV {
    pub hmonitor: isize,
    pub size: Rect,
    pub work_area_size: Rect,
    pub physical_monitor: HandleGuardV,
    pub file_handle: HandleGuardV,
    pub device_name: Seq<char>,
    pub device_description: Seq<char>,
    pub device_key: Seq<char>,
    pub device_path: Seq<char>,
    pub output_technology: i32,
}

impl View for PhysicalDevice {
    type V = PhysicalDeviceV;

    open spec fn view(&self) -> PhysicalDeviceV {
        PhysicalDeviceV {
            hmonitor: self.hmonitor,
            size: self.size,
            work_area_size: self.work_area_size,
            physical_monitor: self.physical_monitor@,
            file_handle: self.file_handle@,
            device_name: self.device_name@,
            device_description: self.device_description@,
            device_key: self.device_key@,
            device_path: self.device_path@,
            output_technology: self.output_technology,
        }
    }
}

impl PhysicalDevice {
    /// Whether the device is an internal (built-in) panel.
    pub fn is_internal(&self) -> (r: bool)
        ensures
            r == (self.output_technology == OUTPUT_TECHNOLOGY_INTERNAL),
    {
        self.output_technology == OUTPUT_TECHNOLOGY_INTERNAL
    }
}

/// The outcome of the one-time display-configuration query: either the
/// per-target query results, or the stage that failed.
#[derive(Clone, Debug)]
pub enum ConfigQueryOutcome {
    Queried(Vec<TargetQueryResult>),
    BufferSizesFailed(WinError),
    QueryFailed(WinError),
}

/// One logical monitor as the OS reported it for the lightweight listing.
#[derive(Debug)]
pub struct MonitorInput {
    pub hmonitor: isize,
    pub info: Result<MonitorInfoData, WinError>,
}

/// The outcome of opening a control file handle for one device: the raw
/// handle, or the HRESULT the open failed with.
#[derive(Clone, Copy, Debug, PartialEq, Eq, Structural)]
pub enum OpenResult {
    Opened(isize),
    Failed(i32),
}

/// One logical monitor as the OS reported it for the physical listing:
/// its info query, its physical-monitor handles, and the control-handle
/// open outcomes for its active devices, in device order.
#[derive(Debug)]
pub struct PhysicalMonitorInput {
    pub hmonitor: isize,
    pub info: Result<MonitorInfoData, WinError>,
    pub physical: Result<Vec<isize>, WinError>,
    pub opens: Vec<OpenResult>,
}

/// Everything the lightweight listing reads: the one-time configuration
/// query and the per-monitor walks.
#[derive(Debug)]
pub struct DisplaySnapshot {
    pub device_info: ConfigQueryOutcome,
    pub monitors: Result<Vec<MonitorInput>, WinError>,
}

/// Everything the physical listing reads.
#[derive(Debug)]
pub struct PhysicalDisplaySnapshot {
    pub device_info: ConfigQueryOutcome,
    pub monitors: Result<Vec<PhysicalMonitorInput>, WinError>,
}

pub open spec fn spec_is_active(d: DisplayDeviceRecord) -> bool {
    d.state_flags & DISPLAY_DEVICE_ACTIVE == DISPLAY_DEVICE_ACTIVE
}

/// The subsequence of currently active device records, slot order kept.
pub open spec fn spec_active_devices(s: Seq<DisplayDeviceRecord>) -> Seq<DisplayDeviceRecord>
    decreases s.len(),
{
    if s.len() == 0 {
        Seq::empty()
    } else {
        let rest = spec_active_devices(s.drop_last());
        if spec_is_active(s.last()) {
            rest.push(s.last())
        } else {
            rest
        }
    }
}

impl PhysicalMonitorInput {
    /// The open outcomes line up with the active devices whenever the
    /// zip is reached: one open per active device.
    pub open spec fn wf(&self) -> bool {
        match (self.physical, self.info) {
            (Ok(handles), Ok(info)) => {
                spec_active_devices(info.devices@).len() == handles@.len()
                    ==> self.opens@.len() == handles@.len()
            },
            _ => true,
        }
    }
}

impl PhysicalDisplaySnapshot {
    pub open spec fn wf(&self) -> bool {
        self.monitors matches Ok(ms) ==> forall|i: int|
            0 <= i < ms@.len() ==> #[trigger] ms@[i].wf()
    }
}

/// The model of one completed lightweight record.
pub open spec fn spec_device_v(
    hmonitor: isize,
    info: MonitorInfoData,
    d: DisplayDeviceRecord,
    tech: i32,
) -> DeviceV {
    DeviceV {
        hmonitor,
        size: info.size,
        work_area_size: info.work_area_size,
        device_name: decoded_wide(d.device_name@),
        device_description: decoded_wide(d.device_string@),
        device_key: decoded_wide(d.device_key@),
        device_path: decoded_wide(d.device_id@),
        output_technology: tech,
    }
}

/// The element the lightweight listing yields for one active device: its
/// completed record, or `DeviceInfoMissing` when its identity path has no
/// target-info entry.
pub open spec fn spec_device_elem(
    map: Map<Seq<u16>, i32>,
    hmonitor: isize,
    info: MonitorInfoData,
    d: DisplayDeviceRecord,
) -> Result<DeviceV, SysErrorV> {
    if map.contains_key(d.device_id@) {
        Ok(spec_device_v(hmonitor, info, d, map[d.device_id@]))
    } else {
        Err(SysErrorV::DeviceInfoMissing)
    }
}

/// The elements the lightweight walk yields for the given device slots:
/// one element per active device, in slot order.
pub open spec fn spec_device_elems(
    map: Map<Seq<u16>, i32>,
    hmonitor: isize,
    info: MonitorInfoData,
    devs: Seq<DisplayDeviceRecord>,
) -> Seq<Result<DeviceV, SysErrorV>>
    decreases devs.len(),
{
    if devs.len() == 0 {
        Seq::empty()
    } else {
        let rest = spec_device_elems(map, hmonitor, info, devs.drop_last());
        if spec_is_active(devs.last()) {
            rest.push(spec_device_elem(map, hmonitor, info, devs.last()))
        } else {
            rest
        }
    }
}

/// The elements the lightweight listing yields for one logical monitor.
pub open spec fn spec_monitor_all(map: Map<Seq<u16>, i32>, m: MonitorInput) -> Seq<
    Result<DeviceV, SysErrorV>,
> {
    match m.info {
        Err(e) => seq![Err(SysErrorV::GetMonitorInfoFailed(e))],
        Ok(info) => spec_device_elems(map, m.hmonitor, info, info.devices@),
    }
}

/// The lightweight elements of a run, monitor by monitor.
pub open spec fn spec_monitors_all(map: Map<Seq<u16>, i32>, ms: Seq<MonitorInput>) -> Seq<
    Result<DeviceV, SysErrorV>,
>
    decreases ms.len(),
{
    if ms.len() == 0 {
        Seq::empty()
    } else {
        spec_monitors_all(map, ms.drop_last()) + spec_monitor_all(map, ms.last())
    }
}

/// The target-info index a configuration-query outcome denotes, or the
/// snapshot-wide error it failed with.
pub open spec fn spec_device_info_outcome(c: ConfigQueryOutcome) -> Result<
    Map<Seq<u16>, i32>,
    SysErrorV,
> {
    match c {
        ConfigQueryOutcome::Queried(rs) => spec_build_device_info_map(rs@),
        ConfigQueryOutcome::BufferSizesFailed(e) => Err(
            SysErrorV::GetDisplayConfigBufferSizesFailed(e),
        ),
        ConfigQueryOutcome::QueryFailed(e) => Err(SysErrorV::QueryDisplayConfigFailed(e)),
    }
}

/// The whole lightweight listing: a snapshot-wide failure short-circuits to
/// a single failed element; otherwise every monitor contributes its own
/// elements.
pub open spec fn spec_connected_displays_all(s: DisplaySnapshot) -> Seq<
    Result<DeviceV, SysErrorV>,
> {
    match spec_device_info_outcome(s.device_info) {
        Err(e) => seq![Err(e)],
        Ok(map) => match s.monitors {
            Err(e) => seq![Err(SysErrorV::EnumDisplayMonitorsFailed(e))],
            Ok(ms) => spec_monitors_all(map, ms@),
        },
    }
}

/// The model of one completed resource-bearing record; both guards start
/// unreleased.
pub open spec fn spec_physical_device_v(
    hmonitor: isize,
    info: MonitorInfoData,
    d: DisplayDeviceRecord,
    physical_handle: isize,
    file_handle: isize,
    tech: i32,
) -> PhysicalDeviceV {
    PhysicalDeviceV {
        hmonitor,
        size: info.size,
        work_area_size: info.work_area_size,
        physical_monitor: HandleGuardV { handle: physical_handle, released: false },
        file_handle: HandleGuardV { handle: file_handle, released: false },
        device_name: decoded_wide(d.device_name@),
        device_description: decoded_wide(d.device_string@),
        device_key: decoded_wide(d.device_key@),
        device_path: decoded_wide(d.device_id@),
        output_technology: tech,
    }
}

/// What one zipped slot yields: nothing for an access-denied open, a named
/// per-device error for any other failed open, and otherwise the completed
/// record or `DeviceInfoMissing`.
pub open spec fn spec_open_elem(
    map: Map<Seq<u16>, i32>,
    hmonitor: isize,
    info: MonitorInfoData,
    d: DisplayDeviceRecord,
    physical_handle: isize,
    open: OpenResult,
) -> Option<Result<PhysicalDeviceV, SysErrorV>> {
    match open {
        OpenResult::Failed(code) => if code == ACCESS_DENIED_HRESULT {
            None
        } else {
            Some(
                Err(
                    SysErrorV::OpeningMonitorDeviceInterfaceHandleFailed {
                        device_name: decoded_wide(d.device_name@),
                        source: WinError { code },
                    },
                ),
            )
        },
        OpenResult::Opened(h) => Some(
            if map.contains_key(d.device_id@) {
                Ok(spec_physical_device_v(hmonitor, info, d, physical_handle, h, map[d.device_id@]))
            } else {
                Err(SysErrorV::DeviceInfoMissing)
            },
        ),
    }
}

/// The present values of a sequence of optional elements, order kept.
pub open spec fn collect_present<T>(s: Seq<Option<T>>) -> Seq<T>
    decreases s.len(),
{
    if s.len() == 0 {
        Seq::empty()
    } else {
        let rest = collect_present(s.drop_last());
        match s.last() {
            Some(x) => rest.push(x),
            None => rest,
        }
    }
}

/// The per-slot outcomes of one monitor's zip of active devices against
/// physical handles and open outcomes.
pub open spec fn spec_monitor_open_slots(
    map: Map<Seq<u16>, i32>,
    m: PhysicalMonitorInput,
    info: MonitorInfoData,
    handles: Seq<isize>,
) -> Seq<Option<Result<PhysicalDeviceV, SysErrorV>>> {
    Seq::new(
        spec_active_devices(info.devices@).len(),
        |k: int| spec_open_elem(
            map,
            m.hmonitor,
            info,
            spec_active_devices(info.devices@)[k],
            handles[k],
            m.opens@[k],
        ),
    )
}

/// The elements the physical listing yields for one logical monitor. The
/// two positionally-correlated arrays must agree in length before they are
/// zipped; disagreement is one hard error for the whole monitor.
pub open spec fn spec_monitor_physical(map: Map<Seq<u16>, i32>, m: PhysicalMonitorInput) -> Seq<
    Result<PhysicalDeviceV, SysErrorV>,
> {
    match m.physical {
        Err(e) => seq![Err(SysErrorV::GetPhysicalMonitorsFailed(e))],
        Ok(handles) => match m.info {
            Err(e) => seq![Err(SysErrorV::GetMonitorInfoFailed(e))],
            Ok(info) => if spec_active_devices(info.devices@).len() != handles@.len() {
                seq![Err(SysErrorV::EnumerationMismatch)]
            } else {
                collect_present(spec_monitor_open_slots(map, m, info, handles@))
            },
        },
    }
}

/// The physical elements of a run, monitor by monitor.
pub open spec fn spec_monitors_physical(
    map: Map<Seq<u16>, i32>,
    ms: Seq<PhysicalMonitorInput>,
) -> Seq<Result<PhysicalDeviceV, SysErrorV>>
    decreases ms.len(),
{
    if ms.len() == 0 {
        Seq::empty()
    } else {
        spec_monitors_physical(map, ms.drop_last()) + spec_monitor_physical(map, ms.last())
    }
}

/// The whole physical listing.
pub open spec fn spec_connected_displays_physical(s: PhysicalDisplaySnapshot) -> Seq<
    Result<PhysicalDeviceV, SysErrorV>,
> {
    match spec_device_info_outcome(s.device_info) {
        Err(e) => seq![Err(e)],
        Ok(map) => match s.monitors {
            Err(e) => seq![Err(SysErrorV::EnumDisplayMonitorsFailed(e))],
            Ok(ms) => spec_monitors_physical(map, ms@),
        },
    }
}

/// The model of one lightweight element.
pub open spec fn view_device_elem(e: Result<Device, SysError>) -> Result<DeviceV, SysErrorV> {
    match e {
        Ok(d) => Ok(d@),
        Err(x) => Err(x@),
    }
}

/// The models of a vector of lightweight elements.
pub open spec fn view_device_seq(s: Seq<Result<Device, SysError>>) -> Seq<
    Result<DeviceV, SysErrorV>,
> {
    s.map_values(|e: Result<Device, SysError>| view_device_elem(e))
}

/// The model of one physical element.
pub open spec fn view_physical_elem(e: Result<PhysicalDevice, SysError>) -> Result<
    PhysicalDeviceV,
    SysErrorV,
> {
    match e {
        Ok(d) => Ok(d@),
        Err(x) => Err(x@),
    }
}

/// The models of a vector of physical elements.
pub open spec fn view_physical_seq(s: Seq<Result<PhysicalDevice, SysError>>) -> Seq<
    Result<PhysicalDeviceV, SysErrorV>,
> {
    s.map_values(|e: Result<PhysicalDevice, SysError>| view_physical_elem(e))
}

/// Active devices of a prefix form a prefix of the active devices of the
/// whole walk: filtering keeps slot order.
pub proof fn lemma_active_prefix(s: Seq<DisplayDeviceRecord>, j: int)
    requires
        0 <= j <= s.len(),
    ensures
        spec_active_devices(s.take(j)).len() <= spec_active_devices(s).len(),
        spec_active_devices(s.take(j)) == spec_active_devices(s).take(
            spec_active_devices(s.take(j)).len() as int,
        ),
    decreases s.len() - j,
{
    let a = spec_active_devices(s);
    let aj = spec_active_devices(s.take(j));
    if j == s.len() {
        assert(s.take(j) =~= s);
        assert(aj == a.take(aj.len() as int)) by {
            assert(a.take(a.len() as int) =~= a);
        }
    } else {
        lemma_active_prefix(s, j + 1);
        let aj1 = spec_active_devices(s.take(j + 1));
        assert(s.take(j + 1).drop_last() =~= s.take(j));
        if spec_is_active(s[j]) {
            assert(aj1 == aj.push(s[j]));
            assert(aj == a.take(aj.len() as int)) by {
                assert(a.take(aj1.len() as int).drop_last() =~= a.take(aj1.len() - 1));
            }
        }
    }
}

/// Counts the currently active device records.
fn count_active(devices: &Vec<DisplayDeviceRecord>) -> (r: usize)
    ensures
        r as int == spec_active_devices(devices@).len(),
{
    let mut c: usize = 0;
    let mut i: usize = 0;
    while i < devices.len()
        invariant
            0 <= i <= devices@.len(),
            c <= i,
            c as int == spec_active_devices(devices@.take(i as int)).len(),
        decreases devices@.len() - i,
    {
        assert(devices@.take(i + 1).drop_last() =~= devices@.take(i as int));
        if crate::flag_set(devices[i].state_flags, DISPLAY_DEVICE_ACTIVE) {
            c += 1;
        }
        i += 1;
    }
    assert(devices@.take(devices@.len() as int) =~= devices@);
    c
}

/// Completes one lightweight record from its parts.
fn device_from_parts(
    hmonitor: isize,
    info: &MonitorInfoData,
    d: &DisplayDeviceRecord,
    tech: i32,
) -> (r: Device)
    ensures
        r@ == spec_device_v(hmonitor, *info, *d, tech),
{
    Device {
        hmonitor,
        size: info.size,
        work_area_size: info.work_area_size,
        device_name: wchar_to_string(&d.device_name),
        device_description: wchar_to_string(&d.device_string),
        device_key: wchar_to_string(&d.device_key),
        device_path: wchar_to_string(&d.device_id),
        output_technology: tech,
    }
}

/// The lightweight elements for one logical monitor: geometry failure is one
/// failed element; otherwise each active device yields its record or its
/// per-device error.
fn monitor_all_elems(map: &DeviceInfoMap, m: &MonitorInput) -> (r: Vec<Result<Device, SysError>>)
    ensures
        view_device_seq(r@) == spec_monitor_all(map@, *m),
{
    match &m.info {
        Err(e) => {
            let mut v: Vec<Result<Device, SysError>> = Vec::new();
            v.push(Err(SysError::GetMonitorInfoFailed(*e)));
            assert(view_device_seq(v@) =~= spec_monitor_all(map@, *m));
            v
        },
        Ok(info) => {
            let devs = &info.devices;
            let mut out: Vec<Result<Device, SysError>> = Vec::new();
            let mut j: usize = 0;
            while j < devs.len()
                invariant
                    0 <= j <= devs@.len(),
                    m.info == Ok::<MonitorInfoData, WinError>(*info),
                    devs@ == info.devices@,
                    view_device_seq(out@) =~= spec_device_elems(
                        map@,
                        m.hmonitor,
                        *info,
                        devs@.take(j as int),
                    ),
                decreases devs@.len() - j,
            {
                assert(devs@.take(j + 1).drop_last() =~= devs@.take(j as int));
                let d = &devs[j];
                if crate::flag_set(d.state_flags, DISPLAY_DEVICE_ACTIVE) {
                    match map.get(&d.device_id) {
                        Some(tech) => {
                            out.push(Ok(device_from_parts(m.hmonitor, info, d, tech)));
                        },
                        None => {
                            out.push(Err(SysError::DeviceInfoMissing));
                        },
                    }
                }
                proof {
                    assert(view_device_seq(out@) =~= spec_device_elems(
                        map@,
                        m.hmonitor,
                        *info,
                        devs@.take(j + 1),
                    ));
                }
                j += 1;
            }
            assert(devs@.take(devs@.len() as int) =~= devs@);
            out
        },
    }
}

/// The physical elements for one logical monitor: a failed handle or info
/// query is one failed element; unequal array lengths are one hard
/// `EnumerationMismatch` element; otherwise the arrays are zipped
/// positionally and each slot yields its record, its per-device error, or
/// nothing for an access-denied open.
fn monitor_physical_elems(map: &DeviceInfoMap, m: &PhysicalMonitorInput) -> (r: Vec<
    Result<PhysicalDevice, SysError>,
>)
    requires
        m.wf(),
    ensures
        view_physical_seq(r@) == spec_monitor_physical(map@, *m),
{
    match &m.physical {
        Err(e) => {
            let mut v: Vec<Result<PhysicalDevice, SysError>> = Vec::new();
            v.push(Err(SysError::GetPhysicalMonitorsFailed(*e)));
            assert(view_physical_seq(v@) =~= spec_monitor_physical(map@, *m));
            v
        },
        Ok(handles) => match &m.info {
            Err(e) => {
                let mut v: Vec<Result<PhysicalDevice, SysError>> = Vec::new();
                v.push(Err(SysError::GetMonitorInfoFailed(*e)));
                assert(view_physical_seq(v@) =~= spec_monitor_physical(map@, *m));
                v
            },
            Ok(info) => {
                let devs = &info.devices;
                let n_active = count_active(devs);
                if n_active != handles.len() {
                    let mut v: Vec<Result<PhysicalDevice, SysError>> = Vec::new();
                    v.push(Err(SysError::EnumerationMismatch));
                    assert(view_physical_seq(v@) =~= spec_monitor_physical(map@, *m));
                    v
                } else {
                    let ghost active = spec_active_devices(devs@);
                    let ghost slots = spec_monitor_open_slots(map@, *m, *info, handles@);
                    let mut out: Vec<Result<PhysicalDevice, SysError>> = Vec::new();
                    let mut j: usize = 0;
                    let mut k: usize = 0;
                    while j < devs.len()
                        invariant
                            0 <= j <= devs@.len(),
                            m.physical == Ok::<Vec<isize>, WinError>(*handles),
                            m.info == Ok::<MonitorInfoData, WinError>(*info),
                            devs@ == info.devices@,
                            active == spec_active_devices(devs@),
                            slots == spec_monitor_open_slots(map@, *m, *info, handles@),
                            active.len() == handles@.len(),
                            m.opens@.len() == handles@.len(),
                            n_active as int == active.len(),
                            k <= n_active,
                            k as int == spec_active_devices(devs@.take(j as int)).len(),
                            spec_active_devices(devs@.take(j as int)) == active.take(k as int),
                            view_physical_seq(out@) =~= collect_present(slots.take(k as int)),
                        decreases devs@.len() - j,
                    {
                        assert(devs@.take(j + 1).drop_last() =~= devs@.take(j as int));
                        let d = &devs[j];
                        if crate::flag_set(d.state_flags, DISPLAY_DEVICE_ACTIVE) {
                            proof {
                                lemma_active_prefix(devs@, j + 1);
                                assert(spec_active_devices(devs@.take(j + 1)) == active.take(
                                    k + 1,
                                ));
                                assert(active.take(k + 1)[k as int] == devs@[j as int]);
                                assert(k as int + 1 <= active.len());
                            }
                            let ph = handles[k];
                            let open = m.opens[k];
                            assert(slots[k as int] == spec_open_elem(
                                map@,
                                m.hmonitor,
                                *info,
                                devs@[j as int],
                                ph,
                                open,
                            ));
                            match open {
                                OpenResult::Failed(code) => {
                                    if code != ACCESS_DENIED_HRESULT {
                                        out.push(
                                            Err(
                                                SysError::OpeningMonitorDeviceInterfaceHandleFailed {
                                                    device_name: wchar_to_string(&d.device_name),
                                                    source: WinError { code },
                                                },
                                            ),
                                        );
                                    }
                                },
                                OpenResult::Opened(h) => {
                                    match map.get(&d.device_id) {
                                        Some(tech) => {
                                            out.push(
                                                Ok(
                                                    PhysicalDevice {
                                                        hmonitor: m.hmonitor,
                                                        size: info.size,
                                                        work_area_size: info.work_area_size,
                                                        physical_monitor:
                                                            WrappedPhysicalMonitor::new(ph),
                                                        file_handle: WrappedFileHandle::new(h),
                                                        device_name: wchar_to_string(
                                                            &d.device_name,
                                                        ),
                                                        device_description: wchar_to_string(
                                                            &d.device_string,
                                                        ),
                                                        device_key: wchar_to_string(&d.device_key),
                                                        device_path: wchar_to_string(&d.device_id),
                                                        output_technology: tech,
                                                    },
                                                ),
                                            );
                                        },
                                        None => {
                                            out.push(Err(SysError::DeviceInfoMissing));
                                        },
                                    }
                                },
                            }
                            proof {
                                assert(slots.take(k + 1).drop_last() =~= slots.take(k as int));
                                assert(view_physical_seq(out@) =~= collect_present(
                                    slots.take(k + 1),
                                ));
                            }
                            k += 1;
                        }
                        j += 1;
                    }
                    proof {
                        assert(devs@.take(devs@.len() as int) =~= devs@);
                        assert(slots.take(k as int) =~= slots);
                    }
                    out
                }
            },
        },
    }
}

/// Lists every active display device of the snapshot as a lightweight
/// record. A failure of the one-time configuration query or of the monitor
/// walk short-circuits to a single failed element; otherwise each monitor
/// contributes one element per active device: the completed record, or its
/// per-device error.
pub fn connected_displays_all(snapshot: DisplaySnapshot) -> (r: Vec<Result<Device, SysError>>)
    ensures
        view_device_seq(r@) == spec_connected_displays_all(snapshot),
{
    let ghost snap = snapshot;
    let map = match snapshot.device_info {
        ConfigQueryOutcome::Queried(rs) => match build_device_info_map(rs) {
            Ok(m) => m,
            Err(e) => {
                let mut v: Vec<Result<Device, SysError>> = Vec::new();
                v.push(Err(e));
                assert(view_device_seq(v@) =~= spec_connected_displays_all(snap));
                return v;
            },
        },
        ConfigQueryOutcome::BufferSizesFailed(e) => {
            let mut v: Vec<Result<Device, SysError>> = Vec::new();
            v.push(Err(SysError::GetDisplayConfigBufferSizesFailed(e)));
            assert(view_device_seq(v@) =~= spec_connected_displays_all(snap));
            return v;
        },
        ConfigQueryOutcome::QueryFailed(e) => {
            let mut v: Vec<Result<Device, SysError>> = Vec::new();
            v.push(Err(SysError::QueryDisplayConfigFailed(e)));
            assert(view_device_seq(v@) =~= spec_connected_displays_all(snap));
            return v;
        },
    };
    assert(spec_device_info_outcome(snap.device_info) == Ok::<Map<Seq<u16>, i32>, SysErrorV>(map@));
    let monitors = match snapshot.monitors {
        Ok(ms) => ms,
        Err(e) => {
            let mut v: Vec<Result<Device, SysError>> = Vec::new();
            v.push(Err(SysError::EnumDisplayMonitorsFailed(e)));
            assert(view_device_seq(v@) =~= spec_connected_displays_all(snap));
            return v;
        },
    };
    let mut out: Vec<Result<Device, SysError>> = Vec::new();
    let mut i: usize = 0;
    while i < monitors.len()
        invariant
            0 <= i <= monitors@.len(),
            spec_device_info_outcome(snap.device_info) == Ok::<Map<Seq<u16>, i32>, SysErrorV>(
                map@,
            ),
            snap.monitors == Ok::<Vec<MonitorInput>, WinError>(monitors),
            view_device_seq(out@) =~= spec_monitors_all(map@, monitors@.take(i as int)),
        decreases monitors@.len() - i,
    {
        assert(monitors@.take(i + 1).drop_last() =~= monitors@.take(i as int));
        let mut seg = monitor_all_elems(&map, &monitors[i]);
        out.append(&mut seg);
        proof {
            assert(view_device_seq(out@) =~= spec_monitors_all(map@, monitors@.take(i + 1)));
        }
        i += 1;
    }
    assert(monitors@.take(monitors@.len() as int) =~= monitors@);
    out
}

/// Lists every active display device of the snapshot as a resource-bearing
/// record, zipping physical-monitor handles positionally against active
/// devices per monitor. Snapshot-wide failures short-circuit to a single
/// failed element; a per-monitor length mismatch is one failed element for
/// that monitor; an access-denied control-handle open drops its device.
pub fn connected_displays_physical(snapshot: PhysicalDisplaySnapshot) -> (r: Vec<
    Result<PhysicalDevice, SysError>,
>)
    requires
        snapshot.wf(),
    ensures
        view_physical_seq(r@) == spec_connected_displays_physical(snapshot),
{
    let ghost snap = snapshot;
    let map = match snapshot.device_info {
        ConfigQueryOutcome::Queried(rs) => match build_device_info_map(rs) {
            Ok(m) => m,
            Err(e) => {
                let mut v: Vec<Result<PhysicalDevice, SysError>> = Vec::new();
                v.push(Err(e));
                assert(view_physical_seq(v@) =~= spec_connected_displays_physical(snap));
                return v;
            },
        },
        ConfigQueryOutcome::BufferSizesFailed(e) => {
            let mut v: Vec<Result<PhysicalDevice, SysError>> = Vec::new();
            v.push(Err(SysError::GetDisplayConfigBufferSizesFailed(e)));
            assert(view_physical_seq(v@) =~= spec_connected_displays_physical(snap));
            return v;
        },
        ConfigQueryOutcome::QueryFailed(e) => {
            let mut v: Vec<Result<PhysicalDevice, SysError>> = Vec::new();
            v.push(Err(SysError::QueryDisplayConfigFailed(e)));
            assert(view_physical_seq(v@) =~= spec_connected_displays_physical(snap));
            return v;
        },
    };
    assert(spec_device_info_outcome(snap.device_info) == Ok::<Map<Seq<u16>, i32>, SysErrorV>(map@));
    let monitors = match snapshot.monitors {
        Ok(ms) => ms,
        Err(e) => {
            let mut v: Vec<Result<PhysicalDevice, SysError>> = Vec::new();
            v.push(Err(SysError::EnumDisplayMonitorsFailed(e)));
            assert(view_physical_seq(v@) =~= spec_connected_displays_physical(snap));
            return v;
        },
    };
    let mut out: Vec<Result<PhysicalDevice, SysError>> = Vec::new();
    let mut i: usize = 0;
    while i < monitors.len()
        invariant
            0 <= i <= monitors@.len(),
            spec_device_info_outcome(snap.device_info) == Ok::<Map<Seq<u16>, i32>, SysErrorV>(
                map@,
            ),
            snap.monitors == Ok::<Vec<PhysicalMonitorInput>, WinError>(monitors),
            snap.wf(),
            view_physical_seq(out@) =~= spec_monitors_physical(map@, monitors@.take(i as int)),
        decreases monitors@.len() - i,
    {
        assert(monitors@.take(i + 1).drop_last() =~= monitors@.take(i as int));
        proof {
            let ms = snap.monitors->Ok_0;
            assert(ms == monitors);
            assert(ms@[i as int].wf());
        }
        let mut seg = monitor_physical_elems(&map, &monitors[i]);
        out.append(&mut seg);
        proof {
            assert(view_physical_seq(out@) =~= spec_monitors_physical(
                map@,
                monitors@.take(i + 1),
            ));
        }
        i += 1;
    }
    assert(monitors@.take(monitors@.len() as int) =~= monitors@);
    out
}

/// The set of device identity paths of the successful lightweight elements.
pub open spec fn success_paths(s: Seq<Result<DeviceV, SysErrorV>>) -> Set<Seq<char>> {
    Set::new(
        |p: Seq<char>| exists|i: int|
            0 <= i < s.len() && ((#[trigger] s[i]) matches Ok(d) && d.device_path == p),
    )
}

/// The set of device identity paths of the successful physical elements.
pub open spec fn success_paths_physical(s: Seq<Result<PhysicalDeviceV, SysErrorV>>) -> Set<
    Seq<char>,
> {
    Set::new(
        |p: Seq<char>| exists|i: int|
            0 <= i < s.len() && ((#[trigger] s[i]) matches Ok(d) && d.device_path == p),
    )
}

/// Idempotence of the lightweight listing: two runs between which nothing
/// was reconfigured read the same snapshot, and so report the same set of
/// device identity paths, whatever order their elements come in.
pub proof fn lemma_listing_idempotent_all(s1: DisplaySnapshot, s2: DisplaySnapshot)
    requires
        s1 == s2,
    ensures
        success_paths(spec_connected_displays_all(s1)) == success_paths(
            spec_connected_displays_all(s2),
        ),
{
}

/// Idempotence of the physical listing, as for the lightweight one.
pub proof fn lemma_listing_idempotent_physical(
    s1: PhysicalDisplaySnapshot,
    s2: PhysicalDisplaySnapshot,
)
    requires
        s1 == s2,
    ensures
        success_paths_physical(spec_connected_displays_physical(s1)) == success_paths_physical(
            spec_connected_displays_physical(s2),
        ),
{
}

/// Splitting the physical run at one monitor: its elements stand between
/// those of the monitors before it and those of the monitors after it.
pub proof fn lemma_monitors_physical_split(
    map: Map<Seq<u16>, i32>,
    ms: Seq<PhysicalMonitorInput>,
    i: int,
)
    requires
        0 <= i < ms.len(),
    ensures
        spec_monitors_physical(map, ms) == spec_monitors_physical(map, ms.take(i))
            + spec_monitor_physical(map, ms[i]) + spec_monitors_physical(map, ms.skip(i + 1)),
    decreases ms.len(),
{
    if i == ms.len() - 1 {
        assert(ms.drop_last() =~= ms.take(i));
        assert(ms.skip(i + 1) =~= Seq::<PhysicalMonitorInput>::empty());
        assert(spec_monitors_physical(map, ms) =~= spec_monitors_physical(map, ms.take(i))
            + spec_monitor_physical(map, ms[i]) + spec_monitors_physical(map, ms.skip(i + 1)));
    } else {
        lemma_monitors_physical_split(map, ms.drop_last(), i);
        assert(ms.drop_last().take(i) =~= ms.take(i));
        assert(ms.drop_last()[i] == ms[i]);
        let tail = ms.skip(i + 1);
        assert(tail.len() > 0);
        assert(ms.drop_last().skip(i + 1) =~= tail.drop_last());
        assert(tail.last() == ms.last());
        assert(spec_monitors_physical(map, tail) == spec_monitors_physical(map, tail.drop_last())
            + spec_monitor_physical(map, tail.last()));
        assert(spec_monitors_physical(map, ms) =~= spec_monitors_physical(map, ms.take(i))
            + spec_monitor_physical(map, ms[i]) + spec_monitors_physical(map, ms.skip(i + 1)));
    }
}

/// A monitor whose two positionally-correlated arrays disagree in length
/// contributes exactly one `EnumerationMismatch` element to the physical
/// run, and every other monitor's elements stand unchanged around it.
pub proof fn lemma_mismatch_isolated(map: Map<Seq<u16>, i32>, ms: Seq<PhysicalMonitorInput>, i: int)
    requires
        0 <= i < ms.len(),
        ms[i].physical is Ok,
        ms[i].info is Ok,
        spec_active_devices(ms[i].info->Ok_0.devices@).len() != ms[i].physical->Ok_0@.len(),
    ensures
        spec_monitors_physical(map, ms) == spec_monitors_physical(map, ms.take(i)) + seq![
            Err::<PhysicalDeviceV, SysErrorV>(SysErrorV::EnumerationMismatch),
        ] + spec_monitors_physical(map, ms.skip(i + 1)),
{
    lemma_monitors_physical_split(map, ms, i);
    assert(spec_monitor_physical(map, ms[i]) =~= seq![
        Err::<PhysicalDeviceV, SysErrorV>(SysErrorV::EnumerationMismatch),
    ]);
}

/// A monitor's lightweight elements stand in one-to-one correspondence with
/// its active devices, in slot order: no active device is silently dropped.
pub proof fn lemma_one_element_per_active_device(
    map: Map<Seq<u16>, i32>,
    hmonitor: isize,
    info: MonitorInfoData,
    devs: Seq<DisplayDeviceRecord>,
)
    ensures
        spec_device_elems(map, hmonitor, info, devs).len() == spec_active_devices(devs).len(),
        forall|k: int| 0 <= k < spec_active_devices(devs).len()
            ==> #[trigger] spec_device_elems(map, hmonitor, info, devs)[k] == spec_device_elem(
                map,
                hmonitor,
                info,
                spec_active_devices(devs)[k],
            ),
    decreases devs.len(),
{
    if devs.len() > 0 {
        lemma_one_element_per_active_device(map, hmonitor, info, devs.drop_last());
    }
}

/// A device whose identity path has no target-info entry yields a
/// `DeviceInfoMissing` error element in the lightweight listing — never an
/// omission.
pub proof fn lemma_missing_info_is_error(
    map: Map<Seq<u16>, i32>,
    hmonitor: isize,
    info: MonitorInfoData,
    d: DisplayDeviceRecord,
)
    requires
        !map.contains_key(d.device_id@),
    ensures
        spec_device_elem(map, hmonitor, info, d) == Err::<DeviceV, SysErrorV>(
            SysErrorV::DeviceInfoMissing,
        ),
{
}

/// The same for the physical listing: a device whose control handle opened
/// but whose identity path has no target-info entry yields a
/// `DeviceInfoMissing` error element.
pub proof fn lemma_missing_info_is_error_physical(
    map: Map<Seq<u16>, i32>,
    hmonitor: isize,
    info: MonitorInfoData,
    d: DisplayDeviceRecord,
    physical_handle: isize,
    file_handle: isize,
)
    requires
        !map.contains_key(d.device_id@),
    ensures
        spec_open_elem(map, hmonitor, info, d, physical_handle, OpenResult::Opened(file_handle))
            == Some(Err::<PhysicalDeviceV, SysErrorV>(SysErrorV::DeviceInfoMissing)),
{
}

/// Every collected element comes from a present slot, and every present
/// slot's value is collected.
pub proof fn lemma_collect_present_membership<T>(s: Seq<Option<T>>, x: T)
    ensures
        collect_present(s).contains(x) <==> exists|k: int| 0 <= k < s.len() && s[k] == Some(x),
    decreases s.len(),
{
    if s.len() > 0 {
        lemma_collect_present_membership(s.drop_last(), x);
        let rest = collect_present(s.drop_last());
        match s.last() {
            Some(v) => {
                assert(collect_present(s) == rest.push(v));
                if rest.push(v).contains(x) {
                    if x == v {
                        assert(s[s.len() - 1] == Some(x));
                    } else {
                        let j = choose|j: int|
                            0 <= j < rest.push(v).len() && rest.push(v)[j] == x;
                        assert(rest[j] == x);
                        assert(rest.contains(x));
                    }
                }
                if exists|k: int| 0 <= k < s.len() && s[k] == Some(x) {
                    let k = choose|k: int| 0 <= k < s.len() && s[k] == Some(x);
                    if k == s.len() - 1 {
                        assert(rest.push(v)[rest.len() as int] == v);
                        assert(collect_present(s).contains(x));
                    } else {
                        assert(s.drop_last()[k] == Some(x));
                        let j = choose|j: int| 0 <= j < rest.len() && rest[j] == x;
                        assert(rest.push(v)[j] == x);
                        assert(collect_present(s).contains(x));
                    }
                }
            },
            None => {
                assert(collect_present(s) == rest);
                if exists|k: int| 0 <= k < s.len() && s[k] == Some(x) {
                    let k = choose|k: int| 0 <= k < s.len() && s[k] == Some(x);
                    assert(k < s.len() - 1);
                    assert(s.drop_last()[k] == Some(x));
                }
            },
        }
    }
}

/// An access-denied control-handle open leaves no trace: its slot yields
/// neither a record nor an error.
pub proof fn lemma_denied_open_absent(
    map: Map<Seq<u16>, i32>,
    hmonitor: isize,
    info: MonitorInfoData,
    d: DisplayDeviceRecord,
    physical_handle: isize,
)
    ensures
        spec_open_elem(
            map,
            hmonitor,
            info,
            d,
            physical_handle,
            OpenResult::Failed(ACCESS_DENIED_HRESULT),
        ) is None,
{
}

/// Any other open failure surfaces as a named per-device error carrying the
/// device name and the failing code.
pub proof fn lemma_failed_open_surfaces(
    map: Map<Seq<u16>, i32>,
    hmonitor: isize,
    info: MonitorInfoData,
    d: DisplayDeviceRecord,
    physical_handle: isize,
    code: i32,
)
    requires
        code != ACCESS_DENIED_HRESULT,
    ensures
        spec_open_elem(map, hmonitor, info, d, physical_handle, OpenResult::Failed(code)) == Some(
            Err::<PhysicalDeviceV, SysErrorV>(
                SysErrorV::OpeningMonitorDeviceInterfaceHandleFailed {
                    device_name: decoded_wide(d.device_name@),
                    source: WinError { code },
                },
            ),
        ),
{
}

/// A device whose control-handle open was denied is entirely absent from
/// its monitor's elements: every element the monitor yields arises from
/// some other slot of the zip.
pub proof fn lemma_denied_device_absent(
    map: Map<Seq<u16>, i32>,
    m: PhysicalMonitorInput,
    k: int,
    e: Result<PhysicalDeviceV, SysErrorV>,
)
    requires
        m.physical is Ok,
        m.info is Ok,
        spec_active_devices(m.info->Ok_0.devices@).len() == m.physical->Ok_0@.len(),
        0 <= k < spec_active_devices(m.info->Ok_0.devices@).len(),
        m.opens@[k] == OpenResult::Failed(ACCESS_DENIED_HRESULT),
        spec_monitor_physical(map, m).contains(e),
    ensures
        exists|t: int|
            0 <= t < spec_active_devices(m.info->Ok_0.devices@).len() && t != k
                && spec_monitor_open_slots(map, m, m.info->Ok_0, m.physical->Ok_0@)[t] == Some(e),
{
    let info = m.info->Ok_0;
    let handles = m.physical->Ok_0@;
    let slots = spec_monitor_open_slots(map, m, info, handles);
    assert(spec_monitor_physical(map, m) == collect_present(slots));
    lemma_collect_present_membership(slots, e);
    let t = choose|t: int| 0 <= t < slots.len() && slots[t] == Some(e);
    assert(slots[k] is None);
    assert(t != k);
    assert(slots[t] == Some(e));
}

} // verus!
