//! The layers that show what is rendered: whether another process hosts them, and
//! the fences that hold back their replacement.

use std::collections::VecDeque;
use vstd::prelude::*;

verus! {

/// How many fence ports are kept.
pub const MAX_CA_CONTEXT_FENCE_PORTS: usize = 4;

/// The port that stands for none.
pub const NULL_PORT: u32 = 0;

/// What the platform offers for layers that another process hosts.
#[derive(Clone, Copy, Debug, PartialEq, Eq, Structural)]
pub struct RemoteLayerSupport {
    pub has_context_class: bool,
    pub creates_contexts: bool,
    pub context_has_id: bool,
    pub context_has_layer: bool,
    pub has_host_class: bool,
    pub host_reads_context_id: bool,
    pub host_sets_context_id: bool,
}

/// Whether layers can be hosted by another process: all of what that takes is
/// there.
pub fn remote_layer_api_supported(support: RemoteLayerSupport) -> (supported: bool)
    ensures
        supported == (support.has_context_class && support.creates_contexts
            && support.context_has_id && support.context_has_layer && support.has_host_class
            && support.host_reads_context_id && support.host_sets_context_id),
{
    if !support.has_context_class {
        return false;
    }
    if !support.creates_contexts || !support.context_has_id || !support.context_has_layer {
        return false;
    }
    if !support.has_host_class {
        return false;
    }
    support.host_reads_context_id && support.host_sets_context_id
}

/// How the layers hang together.
#[derive(Clone, Copy, Debug, PartialEq, Eq, Structural)]
pub enum LayerTopology {
    /// The content layer belongs to a context, which a host layer below the backing
    /// layer shows.
    Hosted,
    /// The content layer lies below the backing layer.
    Direct,
}

/// How the layers hang together: hosted where that is supported and a context could
/// be made.
pub fn choose_topology(supported: bool, context_created: bool) -> (topology: LayerTopology)
    ensures
        topology == if supported && context_created {
            LayerTopology::Hosted
        } else {
            LayerTopology::Direct
        },
{
    if supported && context_created {
        LayerTopology::Hosted
    } else {
        LayerTopology::Direct
    }
}

/// What is asked of a context before it is fenced.
#[derive(Clone, Copy, Debug, PartialEq, Eq, Structural)]
pub struct FenceSupport {
    pub has_context: bool,
    pub creates_fence_ports: bool,
    pub sets_fence_port: bool,
}

/// The fence ports of contexts that were replaced, oldest first.
pub struct FencePorts {
    ports: VecDeque<u32>,
}

impl View for FencePorts {
    type V = Seq<u32>;

    closed spec fn view(&self) -> Seq<u32> {
        self.ports@
    }
}

/// The ports that are kept when one more comes.
pub open spec fn kept_ports(ports: Seq<u32>) -> Seq<u32> {
    if ports.len() > MAX_CA_CONTEXT_FENCE_PORTS {
        ports.skip(ports.len() - MAX_CA_CONTEXT_FENCE_PORTS)
    } else {
        ports
    }
}

/// The ports that are given back when one more comes.
pub open spec fn released_ports(ports: Seq<u32>) -> Seq<u32> {
    if ports.len() > MAX_CA_CONTEXT_FENCE_PORTS {
        ports.take(ports.len() - MAX_CA_CONTEXT_FENCE_PORTS)
    } else {
        Seq::empty()
    }
}

impl FencePorts {
    /// No port is kept.
    pub fn new() -> (ports: Self)
        ensures
            ports@ == Seq::<u32>::empty(),
    {
        FencePorts { ports: VecDeque::new() }
    }

    /// Keeps the port of a context that is about to be replaced, and says which ports
    /// are given back: the oldest, where there are too many. Nothing is kept where the
    /// context cannot be fenced or gave no port.
    pub fn create_and_set_fence_port(&mut self, support: FenceSupport, fence_port: u32) -> (result: (
        bool,
        Vec<u32>,
    ))
        ensures
            if support.has_context && support.creates_fence_ports && support.sets_fence_port
                && fence_port != NULL_PORT {
                &&& result.0
                &&& final(self)@ == kept_ports(old(self)@.push(fence_port))
                &&& result.1@ == released_ports(old(self)@.push(fence_port))
            } else {
                &&& !result.0
                &&& final(self)@ == old(self)@
                &&& result.1@.len() == 0
            },
            old(self)@.len() <= MAX_CA_CONTEXT_FENCE_PORTS ==> final(self)@.len()
                <= MAX_CA_CONTEXT_FENCE_PORTS,
    {
        let mut released: Vec<u32> = Vec::new();
        if !support.has_context || !support.creates_fence_ports || !support.sets_fence_port {
            return (false, released);
        }
        if fence_port == NULL_PORT {
            return (false, released);
        }
        let ghost all = self.ports@.push(fence_port);
        self.ports.push_back(fence_port);
        while self.ports.len() > MAX_CA_CONTEXT_FENCE_PORTS
            invariant
                released@.len() <= all.len(),
                self.ports@ == all.skip(released@.len() as int),
                released@ == all.take(released@.len() as int),
                released@.len() > 0 ==> self.ports@.len() >= MAX_CA_CONTEXT_FENCE_PORTS,
            decreases self.ports@.len(),
        {
            match self.ports.pop_front() {
                Some(port) => {
                    released.push(port);
                    assert(released@ =~= all.take(released@.len() as int));
                    assert(self.ports@ =~= all.skip(released@.len() as int));
                },
                None => {},
            }
        }
        assert(self.ports@ =~= kept_ports(all));
        assert(released@ =~= released_ports(all));
        (true, released)
    }

    /// Gives all ports back.
    pub fn drain(&mut self) -> (released: Vec<u32>)
        ensures
            released@ == old(self)@,
            final(self)@.len() == 0,
    {
        let mut released: Vec<u32> = Vec::new();
        let ghost all = self.ports@;
        while self.ports.len() > 0
            invariant
                released@.len() <= all.len(),
                self.ports@ == all.skip(released@.len() as int),
                released@ == all.take(released@.len() as int),
            decreases self.ports@.len(),
        {
            match self.ports.pop_front() {
                Some(port) => {
                    released.push(port);
                    assert(released@ =~= all.take(released@.len() as int));
                    assert(self.ports@ =~= all.skip(released@.len() as int));
                },
                None => {},
            }
        }
        assert(released@ =~= all);
        released
    }
}

impl Default for FencePorts {
    fn default() -> (ports: Self)
        ensures
            ports@ == Seq::<u32>::empty(),
    {
        FencePorts::new()
    }
}

/// Whether the layers get a new context: they do where one hosts them and another
/// could be made.
pub fn recreates_ca_context(topology: LayerTopology, context_created: bool) -> (recreated: bool)
    ensures
        recreated == (topology is Hosted && context_created),
{
    match topology {
        LayerTopology::Hosted => context_created,
        LayerTopology::Direct => false,
    }
}

/// Whether a port is given back to the kernel: there is one.
pub fn deallocates_port(port: u32) -> (deallocates: bool)
    ensures
        deallocates == (port != NULL_PORT),
{
    port != NULL_PORT
}

/// No port is lost: those that are given back and those that are kept are those
/// that there were and the new one, in their order, and no more than four are kept.
pub proof fn law_ports_are_kept_or_released(ports: Seq<u32>, port: u32)
    ensures
        released_ports(ports.push(port)) + kept_ports(ports.push(port)) == ports.push(port),
        kept_ports(ports.push(port)).len() <= MAX_CA_CONTEXT_FENCE_PORTS,
        kept_ports(ports.push(port)).last() == port,
{
    let all = ports.push(port);
    assert(released_ports(all) + kept_ports(all) =~= all);
}

} // verus!
