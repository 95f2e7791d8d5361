pub mod device;
pub mod error;
pub mod info_map;
pub mod wide;

use vstd::prelude::*;

use crate::device::{
    spec_connected_displays_all, spec_connected_displays_physical, view_device_elem,
    view_device_seq, view_physical_elem, view_physical_seq, Device, DeviceV, DisplaySnapshot,
    PhysicalDevice, PhysicalDeviceV, PhysicalDisplaySnapshot,
};
use crate::error::{Error, ErrorV, SysError, SysErrorV};

verus! {

/// True when every bit of `flag` is set in `t`.
pub fn flag_set(t: u32, flag: u32) -> (r: bool)
    ensures
        r == (t & flag == flag),
{
    t & flag == flag
}

/// The public error that wraps an internal cause.
pub open spec fn wrap_sys(e: SysErrorV) -> ErrorV {
    ErrorV::ListingDevicesFailed(e)
}

/// One internal element with its error wrapped in the public umbrella kind.
pub open spec fn wrap_device_elem(e: Result<DeviceV, SysErrorV>) -> Result<DeviceV, ErrorV> {
    match e {
        Ok(d) => Ok(d),
        Err(x) => Err(wrap_sys(x)),
    }
}

/// Internal elements with each error wrapped in the public umbrella kind.
pub open spec fn wrap_device_elems(s: Seq<Result<DeviceV, SysErrorV>>) -> Seq<
    Result<DeviceV, ErrorV>,
> {
    s.map_values(|e: Result<DeviceV, SysErrorV>| wrap_device_elem(e))
}

/// One physical element with its error wrapped in the public umbrella kind.
pub open spec fn wrap_physical_elem(e: Result<PhysicalDeviceV, SysErrorV>) -> Result<
    PhysicalDeviceV,
    ErrorV,
> {
    match e {
        Ok(d) => Ok(d),
        Err(x) => Err(wrap_sys(x)),
    }
}

/// Physical elements with each error wrapped in the public umbrella kind.
pub open spec fn wrap_physical_elems(s: Seq<Result<PhysicalDeviceV, SysErrorV>>) -> Seq<
    Result<PhysicalDeviceV, ErrorV>,
> {
    s.map_values(|e: Result<PhysicalDeviceV, SysErrorV>| wrap_physical_elem(e))
}

/// The model of one public lightweight element.
pub open spec fn view_pub_device_elem(e: Result<Device, Error>) -> Result<DeviceV, ErrorV> {
    match e {
        Ok(d) => Ok(d@),
        Err(x) => Err(x@),
    }
}

/// The models of a vector of public lightweight elements.
pub open spec fn view_pub_device_seq(s: Seq<Result<Device, Error>>) -> Seq<
    Result<DeviceV, ErrorV>,
> {
    s.map_values(|e: Result<Device, Error>| view_pub_device_elem(e))
}

/// The model of one public physical element.
pub open spec fn view_pub_physical_elem(e: Result<PhysicalDevice, Error>) -> Result<
    PhysicalDeviceV,
    ErrorV,
> {
    match e {
        Ok(d) => Ok(d@),
        Err(x) => Err(x@),
    }
}

/// The models of a vector of public physical elements.
pub open spec fn view_pub_physical_seq(s: Seq<Result<PhysicalDevice, Error>>) -> Seq<
    Result<PhysicalDeviceV, ErrorV>,
> {
    s.map_values(|e: Result<PhysicalDevice, Error>| view_pub_physical_elem(e))
}

/// Lists every active display device of the snapshot as a lightweight
/// record, wrapping each failure in the public error kind.
pub fn connected_displays_all(snapshot: DisplaySnapshot) -> (r: Vec<Result<Device, Error>>)
    ensures
        view_pub_device_seq(r@) == wrap_device_elems(spec_connected_displays_all(snapshot)),
{
    let ghost snap = snapshot;
    let mut inner = crate::device::connected_displays_all(snapshot);
    let ghost full = inner@;
    let mut out: Vec<Result<Device, Error>> = Vec::new();
    while inner.len() > 0
        invariant
            out@.len() + inner@.len() == full.len(),
            inner@ == full.subrange(out@.len() as int, full.len() as int),
            view_device_seq(full) == spec_connected_displays_all(snap),
            view_pub_device_seq(out@) =~= wrap_device_elems(
                view_device_seq(full.take(out@.len() as int)),
            ),
        decreases inner@.len(),
    {
        let ghost done = out@.len() as int;
        let e = inner.remove(0);
        proof {
            assert(e == full[done]);
            assert(inner@ =~= full.subrange(done + 1, full.len() as int));
        }
        let ghost ev = view_device_elem(e);
        let ghost out0 = out@;
        match e {
            Ok(d) => out.push(Ok(d)),
            Err(x) => {
                let ghost xv = x@;
                let w = Error::from(x);
                proof {
                    assert(w == Error::ListingDevicesFailed(x));
                    assert(w@ == wrap_sys(xv));
                }
                out.push(Err(w));
            },
        }
        proof {
            assert(view_pub_device_elem(out@.last()) == wrap_device_elem(ev));
            assert(full.take(done + 1).drop_last() =~= full.take(done));
            assert(view_device_seq(full.take(done + 1)) =~= view_device_seq(
                full.take(done),
            ).push(ev));
            assert(view_pub_device_seq(out@) =~= view_pub_device_seq(out0).push(
                view_pub_device_elem(out@.last()),
            ));
            assert(wrap_device_elems(view_device_seq(full.take(done)).push(ev))
                =~= wrap_device_elems(view_device_seq(full.take(done))).push(
                wrap_device_elem(ev),
            ));
            assert(view_pub_device_seq(out@) =~= wrap_device_elems(
                view_device_seq(full.take(done + 1)),
            ));
        }
    }
    proof {
        assert(full.take(out@.len() as int) =~= full);
        assert(view_pub_device_seq(out@) =~= wrap_device_elems(spec_connected_displays_all(snap)));
    }
    out
}

/// Lists every active display device of the snapshot as a resource-bearing
/// record, wrapping each failure in the public error kind.
pub fn connected_displays_physical(snapshot: PhysicalDisplaySnapshot) -> (r: Vec<
    Result<PhysicalDevice, Error>,
>)
    requires
        snapshot.wf(),
    ensures
        view_pub_physical_seq(r@) == wrap_physical_elems(
            spec_connected_displays_physical(snapshot),
        ),
{
    let ghost snap = snapshot;
    let mut inner = crate::device::connected_displays_physical(snapshot);
    let ghost full = inner@;
    let mut out: Vec<Result<PhysicalDevice, Error>> = Vec::new();
    while inner.len() > 0
        invariant
            out@.len() + inner@.len() == full.len(),
            inner@ == full.subrange(out@.len() as int, full.len() as int),
            view_physical_seq(full) == spec_connected_displays_physical(snap),
            view_pub_physical_seq(out@) =~= wrap_physical_elems(
                view_physical_seq(full.take(out@.len() as int)),
            ),
        decreases inner@.len(),
    {
        let ghost done = out@.len() as int;
        let e = inner.remove(0);
        proof {
            assert(e == full[done]);
            assert(inner@ =~= full.subrange(done + 1, full.len() as int));
        }
        let ghost ev = view_physical_elem(e);
        let ghost out0 = out@;
        match e {
            Ok(d) => out.push(Ok(d)),
            Err(x) => {
                let ghost xv = x@;
                let w = Error::from(x);
                proof {
                    assert(w == Error::ListingDevicesFailed(x));
                    assert(w@ == wrap_sys(xv));
                }
                out.push(Err(w));
            },
        }
        proof {
            assert(view_pub_physical_elem(out@.last()) == wrap_physical_elem(ev));
            assert(full.take(done + 1).drop_last() =~= full.take(done));
            assert(view_physical_seq(full.take(done + 1)) =~= view_physical_seq(
                full.take(done),
            ).push(ev));
            assert(view_pub_physical_seq(out@) =~= view_pub_physical_seq(out0).push(
                view_pub_physical_elem(out@.last()),
            ));
            assert(wrap_physical_elems(view_physical_seq(full.take(done)).push(ev))
                =~= wrap_physical_elems(view_physical_seq(full.take(done))).push(
                wrap_physical_elem(ev),
            ));
            assert(view_pub_physical_seq(out@) =~= wrap_physical_elems(
                view_physical_seq(full.take(done + 1)),
            ));
        }
    }
    proof {
        assert(full.take(out@.len() as int) =~= full);
        assert(view_pub_physical_seq(out@) =~= wrap_physical_elems(
            spec_connected_displays_physical(snap),
        ));
    }
    out
}

} // verus!
