//! From the running configuration to zones, virtual networks and subnets.
//!
//! The running configuration lists zones, virtual networks and subnets
//! apart from each other, each under its name. The zones are put in first,
//! then each virtual network into the zone that it names, then each subnet
//! into the virtual network that it names, in the zone that its own name
//! holds. The first that cannot be put in ends the work.

use vstd::prelude::*;
use crate::sdn::config::{
    add_subnet_spec, add_vnet_spec, add_zone_spec, subnet_of, RunningConfig, SdnConfig,
    SdnConfigError, SdnConfigView, SubnetConfig, SubnetRunningConfig, VnetConfig, VnetConfigView,
    VnetRunningConfig, ZoneConfig, ZoneConfigView, ZoneRunningConfig,
};
use crate::sdn::{SubnetName, VnetName, ZoneName};

verus! {

/// The zones that the running configuration lists.
pub open spec fn zone_ids(value: RunningConfig) -> Seq<(ZoneName, ZoneRunningConfig)> {
    match value.zones {
        Some(z) => z.ids@,
        None => Seq::empty(),
    }
}

/// The virtual networks that the running configuration lists.
pub open spec fn vnet_ids(value: RunningConfig) -> Seq<(VnetName, VnetRunningConfig)> {
    match value.vnets {
        Some(v) => v.ids@,
        None => Seq::empty(),
    }
}

/// The subnets that the running configuration lists.
pub open spec fn subnet_ids(value: RunningConfig) -> Seq<(SubnetName, SubnetRunningConfig)> {
    match value.subnets {
        Some(s) => s.ids@,
        None => Seq::empty(),
    }
}

/// What putting in the listed zones from place `k` on gives: each comes in
/// without virtual networks, in place of a zone of the same name.
pub open spec fn running_zones(c: SdnConfigView, ids: Seq<(ZoneName, ZoneRunningConfig)>, k: int) -> (
    SdnConfigView,
    Option<SdnConfigError>,
)
    decreases ids.len() - k,
{
    if k < 0 || k >= ids.len() {
        (c, None)
    } else {
        let step = add_zone_spec(
            c,
            ZoneConfigView { name: ids[k].0@, ty: ids[k].1.ty, vnets: Seq::empty() },
        );
        match step.1 {
            Err(e) => (step.0, Some(e)),
            Ok(_) => running_zones(step.0, ids, k + 1),
        }
    }
}

/// What putting in the listed virtual networks from place `k` on gives:
/// each comes without subnets into the zone that it names.
pub open spec fn running_vnets(c: SdnConfigView, ids: Seq<(VnetName, VnetRunningConfig)>, k: int) -> (
    SdnConfigView,
    Option<SdnConfigError>,
)
    decreases ids.len() - k,
{
    if k < 0 || k >= ids.len() {
        (c, None)
    } else {
        let step = add_vnet_spec(
            c,
            ids[k].1.zone@,
            VnetConfigView { name: ids[k].0@, tag: ids[k].1.tag, subnets: Seq::empty() },
        );
        match step.1 {
            Err(e) => (step.0, Some(e)),
            Ok(_) => running_vnets(step.0, ids, k + 1),
        }
    }
}

/// What putting in the listed subnets from place `k` on gives: each has to
/// be a subnet, and comes into the virtual network that it names, in the
/// zone that its own name holds.
pub open spec fn running_subnets(
    c: SdnConfigView,
    ids: Seq<(SubnetName, SubnetRunningConfig)>,
    k: int,
) -> (SdnConfigView, Option<SdnConfigError>)
    decreases ids.len() - k,
{
    if k < 0 || k >= ids.len() {
        (c, None)
    } else {
        match subnet_of(ids[k].0.zone_text(), ids[k].0.prefix(), ids[k].1) {
            Err(e) => (c, Some(e)),
            Ok(s) => {
                let step = add_subnet_spec(c, ids[k].0.zone_text(), ids[k].1.vnet@, s);
                match step.1 {
                    Err(e) => (step.0, Some(e)),
                    Ok(_) => running_subnets(step.0, ids, k + 1),
                }
            },
        }
    }
}

/// The configuration that the running configuration stands for, or the
/// first error on the way: zones first, then virtual networks, then
/// subnets, each list in its own order.
pub open spec fn running_spec(value: RunningConfig) -> Result<SdnConfigView, SdnConfigError> {
    let zones = running_zones(Seq::empty(), zone_ids(value), 0);
    match zones.1 {
        Some(e) => Err(e),
        None => {
            let vnets = running_vnets(zones.0, vnet_ids(value), 0);
            match vnets.1 {
                Some(e) => Err(e),
                None => {
                    let subnets = running_subnets(vnets.0, subnet_ids(value), 0);
                    match subnets.1 {
                        Some(e) => Err(e),
                        None => Ok(subnets.0),
                    }
                },
            }
        },
    }
}

impl SdnConfig {
    /// Puts in the listed zones, and stops at the first that cannot be put
    /// in.
    pub fn add_running_zones(&mut self, ids: Vec<(ZoneName, ZoneRunningConfig)>) -> (r: Result<
        (),
        SdnConfigError,
    >)
        ensures
            final(self)@ == running_zones(old(self)@, ids@, 0).0,
            match running_zones(old(self)@, ids@, 0).1 {
                Some(e) => r == Err::<(), SdnConfigError>(e),
                None => r is Ok,
            },
    {
        let ghost all = ids@;
        let ghost start = self@;
        let mut rest = ids;
        let ghost mut k: int = 0;
        while rest.len() > 0
            invariant
                0 <= k,
                k + rest@.len() == all.len(),
                forall|j: int| 0 <= j < rest@.len() ==> #[trigger] rest@[j] == all[k + j],
                start == old(self)@,
                all == ids@,
                running_zones(self@, all, k) == running_zones(start, all, 0),
            decreases rest@.len(),
        {
            let (name, running) = rest.remove(0);
            assert((name, running) == all[k]);
            match self.add_zone(ZoneConfig::new(name, running.ty)) {
                Ok(_) => {},
                Err(e) => {
                    return Err(e);
                },
            }
            proof {
                k = k + 1;
            }
        }
        Ok(())
    }

    /// Puts in the listed virtual networks, and stops at the first that
    /// cannot be put in.
    pub fn add_running_vnets(&mut self, ids: Vec<(VnetName, VnetRunningConfig)>) -> (r: Result<
        (),
        SdnConfigError,
    >)
        ensures
            final(self)@ == running_vnets(old(self)@, ids@, 0).0,
            match running_vnets(old(self)@, ids@, 0).1 {
                Some(e) => r == Err::<(), SdnConfigError>(e),
                None => r is Ok,
            },
    {
        let ghost all = ids@;
        let ghost start = self@;
        let mut rest = ids;
        let ghost mut k: int = 0;
        while rest.len() > 0
            invariant
                0 <= k,
                k + rest@.len() == all.len(),
                forall|j: int| 0 <= j < rest@.len() ==> #[trigger] rest@[j] == all[k + j],
                start == old(self)@,
                all == ids@,
                running_vnets(self@, all, k) == running_vnets(start, all, 0),
            decreases rest@.len(),
        {
            let (name, running) = rest.remove(0);
            assert((name, running) == all[k]);
            match self.add_vnet(&running.zone, VnetConfig::new(name, running.tag)) {
                Ok(_) => {},
                Err(e) => {
                    return Err(e);
                },
            }
            proof {
                k = k + 1;
            }
        }
        Ok(())
    }

    /// Puts in the listed subnets, and stops at the first that is no subnet
    /// or cannot be put in.
    pub fn add_running_subnets(&mut self, ids: Vec<(SubnetName, SubnetRunningConfig)>) -> (r:
        Result<(), SdnConfigError>)
        ensures
            final(self)@ == running_subnets(old(self)@, ids@, 0).0,
            match running_subnets(old(self)@, ids@, 0).1 {
                Some(e) => r == Err::<(), SdnConfigError>(e),
                None => r is Ok,
            },
    {
        let ghost all = ids@;
        let ghost start = self@;
        let mut rest = ids;
        let ghost mut k: int = 0;
        while rest.len() > 0
            invariant
                0 <= k,
                k + rest@.len() == all.len(),
                forall|j: int| 0 <= j < rest@.len() ==> #[trigger] rest@[j] == all[k + j],
                start == old(self)@,
                all == ids@,
                running_subnets(self@, all, k) == running_subnets(start, all, 0),
            decreases rest@.len(),
        {
            let (name, running) = rest.remove(0);
            assert((name, running) == all[k]);
            let zone_name = name.zone().clone();
            let vnet_name = running.vnet.clone();
            let subnet = match SubnetConfig::try_from_running_config(name, running) {
                Ok(subnet) => subnet,
                Err(e) => {
                    return Err(e);
                },
            };
            match self.add_subnet(&zone_name, &vnet_name, subnet) {
                Ok(_) => {},
                Err(e) => {
                    return Err(e);
                },
            }
            proof {
                k = k + 1;
            }
        }
        Ok(())
    }

    /// The configuration that the running configuration stands for.
    pub fn try_from(value: RunningConfig) -> (r: Result<SdnConfig, SdnConfigError>)
        ensures
            match running_spec(value) {
                Ok(c) => r is Ok && r->Ok_0@ == c,
                Err(e) => r == Err::<SdnConfig, SdnConfigError>(e),
            },
    {
        let mut config = SdnConfig::new();
        let RunningConfig { zones, subnets, vnets } = value;
        if let Some(listed) = zones {
            match config.add_running_zones(listed.ids) {
                Ok(()) => {},
                Err(e) => {
                    return Err(e);
                },
            }
        }
        if let Some(listed) = vnets {
            match config.add_running_vnets(listed.ids) {
                Ok(()) => {},
                Err(e) => {
                    return Err(e);
                },
            }
        }
        if let Some(listed) = subnets {
            match config.add_running_subnets(listed.ids) {
                Ok(()) => {},
                Err(e) => {
                    return Err(e);
                },
            }
        }
        Ok(config)
    }
}

} // verus!
