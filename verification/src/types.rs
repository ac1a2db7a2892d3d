//! Shared metadata types for the group-profile side of the registry:
//! an applet as described by its installer, and the profile of the group a
//! registry instance serves.  Payload and hash fields are plain values; the
//! core treats them as opaque.

use vstd::prelude::*;

verus! {

/// An applet instance as chosen and described by the person adding it to the
/// group.  Digest fields carry printable digests of the installed bundles;
/// `properties` is keyed by role name and opaque to the registry.
pub struct Applet {
    pub custom_name: String,
    pub description: String,
    pub sha256_happ: String,
    pub sha256_webhapp: Option<String>,
    pub distribution_info: String,
    pub meta_data: Option<String>,
    pub network_seed: Option<String>,
    pub properties: Vec<(String, Vec<u8>)>,
}

/// The profile of the group a registry instance serves.
pub struct GroupProfile {
    pub name: String,
    pub logo_src: String,
}

} // verus!
