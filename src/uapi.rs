//! The records of the kernel's mode-setting interface that the harness
//! fills, and the client capabilities.

use vstd::prelude::*;

verus! {

/// An opt-in feature of a device client.
#[derive(Clone, Copy, Debug, PartialEq, Eq, Structural)]
pub enum ClientCapability {
    Stereo3d,
    UniversalPlanes,
    Atomic,
    AspectRatio,
    WritebackConnectors,
}

/// The number by which the kernel knows a capability.
pub open spec fn capability_number(cap: ClientCapability) -> u64 {
    match cap {
        ClientCapability::Stereo3d => 1,
        ClientCapability::UniversalPlanes => 2,
        ClientCapability::Atomic => 3,
        ClientCapability::AspectRatio => 4,
        ClientCapability::WritebackConnectors => 5,
    }
}

/// Every capability, in declaration order.
pub open spec fn all_capabilities() -> Seq<ClientCapability> {
    seq![
        ClientCapability::Stereo3d,
        ClientCapability::UniversalPlanes,
        ClientCapability::Atomic,
        ClientCapability::AspectRatio,
        ClientCapability::WritebackConnectors,
    ]
}

impl ClientCapability {
    /// The number by which the kernel knows this capability.
    pub fn number(&self) -> (r: u64)
        ensures
            r == capability_number(*self),
    {
        match self {
            ClientCapability::Stereo3d => 1,
            ClientCapability::UniversalPlanes => 2,
            ClientCapability::Atomic => 3,
            ClientCapability::AspectRatio => 4,
            ClientCapability::WritebackConnectors => 5,
        }
    }

    /// Every capability, in declaration order.
    pub fn all() -> (r: Vec<ClientCapability>)
        ensures
            r@ == all_capabilities(),
    {
        let r = vec![
            ClientCapability::Stereo3d,
            ClientCapability::UniversalPlanes,
            ClientCapability::Atomic,
            ClientCapability::AspectRatio,
            ClientCapability::WritebackConnectors,
        ];
        assert(r@ =~= all_capabilities());
        r
    }

    /// The capabilities that a client turns off to return to its initial
    /// state, in declaration order: all but writeback connectors, which the
    /// kernel ties to atomic mode-setting and which cannot be toggled alone.
    pub fn clearable() -> (r: Vec<ClientCapability>)
        ensures
            r@ == all_capabilities().filter(
                |c: ClientCapability| c != ClientCapability::WritebackConnectors,
            ),
    {
        let all = ClientCapability::all();
        let mut r: Vec<ClientCapability> = Vec::new();
        let mut i: usize = 0;
        while i < all.len()
            invariant
                i <= all@.len(),
                all@ == all_capabilities(),
                r@ == all@.subrange(0, i as int).filter(
                    |c: ClientCapability| c != ClientCapability::WritebackConnectors,
                ),
            decreases all.len() - i,
        {
            let c = all[i];
            assert(all@.subrange(0, i + 1).drop_last() =~= all@.subrange(0, i as int));
            reveal(Seq::filter);
            if c != ClientCapability::WritebackConnectors {
                r.push(c);
            }
            i += 1;
        }
        assert(all@.subrange(0, all@.len() as int) =~= all@);
        r
    }
}

/// The version record of a device: its driver's version numbers and, at
/// caller-supplied addresses, its name, date and description.
#[allow(non_camel_case_types)]
#[derive(Debug, Default, Clone, Copy)]
pub struct drm_version {
    pub major: i32,
    pub minor: i32,
    pub patchlevel: i32,
    pub name_len: usize,
    pub name: u64,
    pub date_len: usize,
    pub date: u64,
    pub desc_len: usize,
    pub desc: u64,
}

impl drm_version {
    /// The record of the second step of the driver-name query: the name
    /// length that the first step (a zeroed record) reported, with the address of a buffer of
    /// that many bytes; no date or description is asked for.
    pub fn name_query(lengths: &drm_version, buffer: u64) -> (r: drm_version)
        ensures
            r.name_len == lengths.name_len,
            r.name == buffer,
            r.date_len == 0 && r.date == 0 && r.desc_len == 0 && r.desc == 0,
    {
        drm_version {
            major: 0,
            minor: 0,
            patchlevel: 0,
            name_len: lengths.name_len,
            name: buffer,
            date_len: 0,
            date: 0,
            desc_len: 0,
            desc: 0,
        }
    }
}

/// A query of one device capability: its number, and the value reported.
#[allow(non_camel_case_types)]
#[derive(Debug, Default, Clone, Copy)]
pub struct drm_getcap {
    pub capability: u64,
    pub value: u64,
}

/// A request to turn one client capability on (value 1) or off (value 0).
#[allow(non_camel_case_types)]
#[derive(Debug, Default, Clone, Copy)]
pub struct drm_setclientcap {
    pub capability: u64,
    pub value: u64,
}

impl drm_setclientcap {
    /// The request that turns `cap` on or off.
    pub fn toggle(cap: ClientCapability, enable: bool) -> (r: drm_setclientcap)
        ensures
            r.capability == capability_number(cap),
            r.value == (if enable { 1u64 } else { 0u64 }),
    {
        drm_setclientcap { capability: cap.number(), value: if enable { 1 } else { 0 } }
    }
}

/// The planes of a device: how many there are and, at a caller-supplied
/// address, their identifiers.
#[allow(non_camel_case_types)]
#[derive(Debug, Default, Clone, Copy)]
pub struct drm_mode_get_plane_res {
    pub plane_id_ptr: u64,
    pub count_planes: u32,
}

/// One plane: what it shows, where it may be shown and, at a caller-supplied
/// address, the pixel formats it accepts.
#[allow(non_camel_case_types)]
#[derive(Debug, Default, Clone, Copy)]
pub struct drm_mode_get_plane {
    pub plane_id: u32,
    pub crtc_id: u32,
    pub fb_id: u32,
    pub possible_crtcs: u32,
    pub gamma_size: u32,
    pub count_format_types: u32,
    pub format_type_ptr: u64,
}

} // verus!
