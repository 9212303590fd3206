//! What layers pass on to later layers, and what a port is handed with each packet.

use crate::overlay::Virt2Phys;
use crate::router::ActionMetaValue;
use crate::router::RouterTargetInternal;
use vstd::prelude::*;

verus! {

/// What the layers that a packet has passed tell the layers that follow.
#[derive(Clone, Copy, Debug, PartialEq, Eq, Structural)]
pub struct ActionMeta {
    /// Where the router sends the packet.
    pub router_target: Option<RouterTargetInternal>,
}

impl ActionMeta {
    /// Metadata that says nothing yet.
    pub fn new() -> (r: ActionMeta)
        ensures
            r == (ActionMeta { router_target: None }),
    {
        ActionMeta { router_target: None }
    }

    /// The text under the key `key`: the router's target under the router's key, nothing
    /// under any other.
    pub open spec fn spec_get(self, key: Seq<char>) -> Option<Seq<char>> {
        if key == RouterTargetInternal::spec_key() {
            match self.router_target {
                Some(t) => Some(t.spec_as_meta()),
                None => None,
            }
        } else {
            None
        }
    }

    /// The text under the key `key`.
    pub fn get(&self, key: &str) -> (r: Option<String>)
        ensures
            match r {
                Some(s) => self.spec_get(key@) == Some(s@),
                None => self.spec_get(key@) is None,
            },
    {
        let k = crate::text::chars_of(key);
        if crate::text::chars_eq_str(&k, crate::router::ROUTER_TARGET_KEY) {
            match &self.router_target {
                Some(t) => Some(t.as_meta()),
                None => None,
            }
        } else {
            None
        }
    }

    /// Forgets everything.
    pub fn clear(&mut self)
        ensures
            *final(self) == (ActionMeta { router_target: None }),
    {
        self.router_target = None;
    }
}

/// What a port is handed with each packet: the resources that its layers share with other
/// ports.
#[derive(Debug)]
pub struct Meta {
    /// Where the guests of the VPC live on the physical network.
    pub v2p: Option<Virt2Phys>,
}

/// Why a resource could not be added.
#[derive(Clone, Copy, Debug, PartialEq, Eq, Structural)]
pub enum MetaError {
    /// A resource of this kind is there already.
    AlreadyExists,
}

impl Meta {
    /// Metadata without resources.
    pub fn new() -> (r: Meta)
        ensures
            r.v2p is None,
    {
        Meta { v2p: None }
    }

    /// Adds the virtual-to-physical mappings; fails, and changes nothing, where there are
    /// mappings already.
    pub fn add(&mut self, v2p: Virt2Phys) -> (r: Result<(), MetaError>)
        ensures
            match r {
                Ok(_) => old(self).v2p is None && final(self).v2p == Some(v2p),
                Err(e) => old(self).v2p is Some && e == MetaError::AlreadyExists && *final(self) == *old(self),
            },
    {
        if self.v2p.is_some() {
            return Err(MetaError::AlreadyExists);
        }
        self.v2p = Some(v2p);
        Ok(())
    }

    /// Takes all resources out.
    pub fn clear(&mut self)
        ensures
            final(self).v2p is None,
    {
        self.v2p = None;
    }
}

} // verus!
