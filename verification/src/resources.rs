//! The resources that the container runtime lists.

use crate::text::same_text;
use vstd::prelude::*;

verus! {

/// An image, as the runtime lists it.
#[derive(Debug)]
pub struct Image {
    pub id: String,
    pub repository: String,
    pub tag: String,
    pub size: String,
    pub created_at: String,
}

/// A container, as the runtime lists it.
#[derive(Debug)]
pub struct Container {
    pub id: String,
    pub names: String,
    pub image: String,
    pub state: String,
    pub status: String,
    pub size: String,
}

/// A volume, as the runtime lists it.
#[derive(Debug)]
pub struct Volume {
    pub name: String,
    pub driver: String,
    pub mountpoint: String,
}

/// A network, as the runtime lists it.
#[derive(Debug)]
pub struct Network {
    pub id: String,
    pub name: String,
    pub driver: String,
    pub scope: String,
}

/// Whether a container state reads `running`, letter for letter.
pub open spec fn is_running_state(state: Seq<char>) -> bool {
    state == "running"@
}

/// Whether a network name is one of those the runtime sets up itself:
/// `bridge`, `host` and `none`.
pub open spec fn is_default_network(name: Seq<char>) -> bool {
    name == "bridge"@ || name == "host"@ || name == "none"@
}

impl Container {
    /// Whether the container is running.
    pub fn is_running(&self) -> (running: bool)
        ensures
            running == is_running_state(self.state@),
    {
        same_text(self.state.as_str(), "running")
    }
}

impl Network {
    /// Whether the network is one of the runtime's own, which are never
    /// removed.
    pub fn is_default(&self) -> (default: bool)
        ensures
            default == is_default_network(self.name@),
    {
        let name = self.name.as_str();
        same_text(name, "bridge") || same_text(name, "host") || same_text(name, "none")
    }
}

} // verus!
