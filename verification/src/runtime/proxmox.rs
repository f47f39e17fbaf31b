use vstd::prelude::*;
use crate::assoc::StrMap;
use crate::runtime::docker::{desired_text, text_or};
use crate::runtime::value::Value;
use crate::text::{decimal, str_eq, u64_to_decimal};

verus! {

/// Where a provisioned virtual machine lives: the API address, the token,
/// the cluster node and the VM id.
pub struct ProxmoxTarget {
    pub url: String,
    pub token: String,
    pub node: String,
    pub vmid: u32,
}

/// The API calls provisioning makes: a status query, then, if the VM does
/// not exist, a clone.
pub struct ProvisionCalls {
    pub url: String,
    pub token: String,
    pub status_endpoint: String,
    pub clone_endpoint: String,
}

/// The API calls removing a VM makes: stop it, then delete it.
pub struct DestroyCalls {
    pub url: String,
    pub token: String,
    pub stop_endpoint: String,
    pub delete_endpoint: String,
}

/// Virtual machines on a Proxmox cluster; the calls themselves are the
/// caller's part.
pub struct ProxmoxAdapter {
    pub entity_name: String,
    pub metadata_cache: StrMap<ProxmoxTarget>,
}

pub open spec fn qemu_path(node: Seq<char>, vmid: u32) -> Seq<char> {
    "/api2/json/nodes/"@ + node + "/qemu/"@ + decimal(vmid as nat)
}

pub open spec fn status_path(node: Seq<char>, vmid: u32) -> Seq<char> {
    qemu_path(node, vmid) + "/status/current"@
}

pub open spec fn clone_path(node: Seq<char>, source: u32, new_id: u32) -> Seq<char> {
    qemu_path(node, source) + "/clone?newid="@ + decimal(new_id as nat)
}

pub open spec fn stop_path(node: Seq<char>, vmid: u32) -> Seq<char> {
    qemu_path(node, vmid) + "/status/stop"@
}

/// The message when a VM to remove was never provisioned here.
pub open spec fn missing_metadata_message() -> Seq<char> {
    "Cannot destroy Proxmox VM: missing metadata in cache (was never provisioned/reconciled)"@
}

/// The authorization header value for a token; none for an empty token.
pub open spec fn auth_header(token: Seq<char>) -> Option<Seq<char>> {
    if token.len() == 0 {
        None
    } else {
        Some("PVEAPIToken="@ + token)
    }
}

fn qemu_path_of(node: &str, vmid: u32) -> (s: String)
    ensures
        s@ == qemu_path(node@, vmid),
{
    let mut s = String::from_str("/api2/json/nodes/");
    s.append(node);
    s.append("/qemu/");
    let id = u64_to_decimal(vmid as u64);
    s.append(id.as_str());
    s
}

/// The value of the `Authorization` header for an API token, if any.
pub fn authorization(token: &str) -> (r: Option<String>)
    ensures
        match r {
            Some(h) => auth_header(token@) == Some(h@),
            None => auth_header(token@) is None,
        },
{
    if token.unicode_len() == 0 {
        None
    } else {
        let mut h = String::from_str("PVEAPIToken=");
        h.append(token);
        Some(h)
    }
}

fn text_field<'a>(d: &'a StrMap<Value>, key: &str, default: &'a str) -> (r: &'a str)
    requires
        d.wf(),
    ensures
        r@ == text_or(desired_text(d@, key@), default@),
{
    match d.get(key) {
        Some(v) => match v.as_text() {
            Some(t) => t,
            None => default,
        },
        None => default,
    }
}

impl ProxmoxAdapter {
    pub fn new(entity_name: String) -> (a: Self)
        ensures
            a.entity_name == entity_name,
            a.metadata_cache.wf(),
            a.metadata_cache@ == Map::<Seq<char>, ProxmoxTarget>::empty(),
    {
        ProxmoxAdapter { entity_name, metadata_cache: StrMap::new() }
    }

    /// The entity this adapter serves.
    pub fn entity_name(&self) -> (s: &str)
        ensures
            s@ == self.entity_name@,
    {
        self.entity_name.as_str()
    }

    /// The calls that provision `instance` as VM `new_vmid`, cloned from
    /// `source_vmid` on the desired `node` (`pve` by default) through the
    /// desired `proxmox_url` (`https://localhost:8006`) with `api_token`
    /// (none). Where the VM lives is remembered for its removal.
    pub fn provision_calls(
        &mut self,
        instance: &str,
        desired: &StrMap<Value>,
        source_vmid: u32,
        new_vmid: u32,
    ) -> (r: ProvisionCalls)
        requires
            old(self).metadata_cache.wf(),
            desired.wf(),
        ensures
            final(self).metadata_cache.wf(),
            final(self).entity_name == old(self).entity_name,
            r.url@ == text_or(desired_text(desired@, "proxmox_url"@), "https://localhost:8006"@),
            r.token@ == text_or(desired_text(desired@, "api_token"@), ""@),
            r.status_endpoint@ == status_path(
                text_or(desired_text(desired@, "node"@), "pve"@),
                new_vmid,
            ),
            r.clone_endpoint@ == clone_path(
                text_or(desired_text(desired@, "node"@), "pve"@),
                source_vmid,
                new_vmid,
            ),
            final(self).metadata_cache@.contains_key(instance@),
            final(self).metadata_cache@[instance@].url@ == r.url@,
            final(self).metadata_cache@[instance@].token@ == r.token@,
            final(self).metadata_cache@[instance@].node@ == text_or(
                desired_text(desired@, "node"@),
                "pve"@,
            ),
            final(self).metadata_cache@[instance@].vmid == new_vmid,
            final(self).metadata_cache@.remove(instance@) == old(self).metadata_cache@.remove(
                instance@,
            ),
    {
        let node = text_field(desired, "node", "pve");
        let url = text_field(desired, "proxmox_url", "https://localhost:8006");
        let token = text_field(desired, "api_token", "");
        let ghost before = self.metadata_cache@;
        self.metadata_cache.insert(
            String::from_str(instance),
            ProxmoxTarget {
                url: String::from_str(url),
                token: String::from_str(token),
                node: String::from_str(node),
                vmid: new_vmid,
            },
        );
        assert(self.metadata_cache@.remove(instance@) =~= before.remove(instance@));
        let mut status_endpoint = qemu_path_of(node, new_vmid);
        status_endpoint.append("/status/current");
        let mut clone_endpoint = qemu_path_of(node, source_vmid);
        clone_endpoint.append("/clone?newid=");
        let id = u64_to_decimal(new_vmid as u64);
        clone_endpoint.append(id.as_str());
        ProvisionCalls {
            url: String::from_str(url),
            token: String::from_str(token),
            status_endpoint,
            clone_endpoint,
        }
    }

    /// The calls that remove the VM of `instance`, or the error when it was
    /// never provisioned here.
    pub fn destroy_calls(&self, instance: &str) -> (r: Result<DestroyCalls, String>)
        requires
            self.metadata_cache.wf(),
        ensures
            match r {
                Ok(c) => self.metadata_cache@.contains_key(instance@) && {
                    let t = self.metadata_cache@[instance@];
                    &&& c.url@ == t.url@
                    &&& c.token@ == t.token@
                    &&& c.stop_endpoint@ == stop_path(t.node@, t.vmid)
                    &&& c.delete_endpoint@ == qemu_path(t.node@, t.vmid)
                },
                Err(m) => !self.metadata_cache@.contains_key(instance@) && m@
                    == missing_metadata_message(),
            },
    {
        match self.metadata_cache.get(instance) {
            Some(t) => {
                let mut stop_endpoint = qemu_path_of(t.node.as_str(), t.vmid);
                stop_endpoint.append("/status/stop");
                Ok(
                    DestroyCalls {
                        url: t.url.clone(),
                        token: t.token.clone(),
                        stop_endpoint,
                        delete_endpoint: qemu_path_of(t.node.as_str(), t.vmid),
                    },
                )
            },
            None => Err(
                String::from_str(
                    "Cannot destroy Proxmox VM: missing metadata in cache (was never provisioned/reconciled)",
                ),
            ),
        }
    }

    /// Forgets the VM of `instance` once it is removed.
    pub fn forget(&mut self, instance: &str)
        requires
            old(self).metadata_cache.wf(),
        ensures
            final(self).metadata_cache.wf(),
            final(self).metadata_cache@ == old(self).metadata_cache@.remove(instance@),
            final(self).entity_name == old(self).entity_name,
    {
        let _ = self.metadata_cache.remove(instance);
    }
}

} // verus!
