//! The strict resource-teardown order.
//!
//! GPU objects reference each other — buffers come from the allocator, the
//! allocator from the logical device, the swapchain from the surface, and so
//! on — so the aggregate owner must destroy them in exactly the reverse of
//! the order it built them, and must first drain all in-flight GPU work
//! (destroying anything an executing command buffer still references is
//! undefined behaviour at the API level). This module makes that discipline
//! structural: a `Teardown` hands out destruction steps one at a time, in
//! the proven order, and hands out nothing until the device has been
//! confirmed idle.
use vstd::prelude::*;

verus! {

/// The resources the aggregate owner holds, one per construction stage.
/// Each stage depends on all earlier ones.
#[derive(Clone, Copy, Debug, PartialEq, Eq, Structural)]
pub enum ResourceKind {
    /// The windowing system's drawable surface.
    WindowSurface,
    /// The graphics-API instance, together with its debug/validation hooks.
    ApiInstance,
    /// The chosen physical device (a selection; destroying it is a no-op).
    PhysicalDevice,
    /// The logical device and its queues.
    LogicalDevice,
    /// The GPU memory allocator.
    Allocator,
    /// The swapchain and its per-image framebuffers.
    Swapchain,
    /// The render pass.
    RenderPass,
    /// The graphics pipeline and its descriptor-set layouts.
    Pipeline,
    /// The command pools.
    CommandPools,
    /// The per-image command buffers.
    CommandBuffers,
    /// The application's uniform/storage/vertex/index/instance buffers.
    ApplicationBuffers,
    /// The descriptor pool and the descriptor sets allocated from it.
    DescriptorPool,
}

/// How many construction stages there are.
pub const RESOURCE_STAGES: usize = 12;

/// The order in which the aggregate owner constructs its resources.
pub open spec fn construction_order() -> Seq<ResourceKind> {
    seq![
        ResourceKind::WindowSurface,
        ResourceKind::ApiInstance,
        ResourceKind::PhysicalDevice,
        ResourceKind::LogicalDevice,
        ResourceKind::Allocator,
        ResourceKind::Swapchain,
        ResourceKind::RenderPass,
        ResourceKind::Pipeline,
        ResourceKind::CommandPools,
        ResourceKind::CommandBuffers,
        ResourceKind::ApplicationBuffers,
        ResourceKind::DescriptorPool,
    ]
}

/// The order in which they are destroyed: the exact reverse.
pub open spec fn teardown_order() -> Seq<ResourceKind> {
    construction_order().reverse()
}

/// The one-shot teardown sequencer. `destroyed` counts the steps already
/// handed out; nothing is handed out before `device_idle`.
pub struct Teardown {
    pub device_idle: bool,
    pub destroyed: usize,
}

impl Teardown {
    /// A teardown that has destroyed nothing and has not yet seen the
    /// device go idle.
    pub fn new() -> (t: Teardown)
        ensures
            !t.device_idle,
            t.destroyed == 0,
    {
        Teardown { device_idle: false, destroyed: 0 }
    }

    /// The application has blocked until the device drained all in-flight
    /// GPU work. Only now may destruction steps be handed out.
    pub fn confirm_device_idle(&mut self)
        ensures
            final(self).device_idle,
            final(self).destroyed == old(self).destroyed,
    {
        self.device_idle = true;
    }

    /// The next resource to destroy, in the exact reverse of the
    /// construction order; `None` once everything has been handed out. The
    /// precondition is the structural guard against destroying anything
    /// while the GPU may still reference it.
    pub fn next(&mut self) -> (r: Option<ResourceKind>)
        requires
            old(self).device_idle,
        ensures
            final(self).device_idle,
            old(self).destroyed < RESOURCE_STAGES ==> {
                &&& r == Some(teardown_order()[old(self).destroyed as int])
                &&& final(self).destroyed == old(self).destroyed + 1
            },
            old(self).destroyed >= RESOURCE_STAGES ==> r is None && *final(self) == *old(self),
    {
        let step = self.destroyed;
        if step >= RESOURCE_STAGES {
            return None;
        }
        self.destroyed = step + 1;
        let kind = match step {
            0 => ResourceKind::DescriptorPool,
            1 => ResourceKind::ApplicationBuffers,
            2 => ResourceKind::CommandBuffers,
            3 => ResourceKind::CommandPools,
            4 => ResourceKind::Pipeline,
            5 => ResourceKind::RenderPass,
            6 => ResourceKind::Swapchain,
            7 => ResourceKind::Allocator,
            8 => ResourceKind::LogicalDevice,
            9 => ResourceKind::PhysicalDevice,
            10 => ResourceKind::ApiInstance,
            _ => ResourceKind::WindowSurface,
        };
        proof {
            assert(teardown_order()[step as int] == kind);
        }
        Some(kind)
    }
}

/// Law: the destruction sequence is exactly the construction sequence
/// reversed — step `i` of teardown destroys what construction stage
/// `RESOURCE_STAGES - 1 - i` built.
pub proof fn law_teardown_reverses_construction(i: int)
    requires
        0 <= i < RESOURCE_STAGES,
    ensures
        teardown_order().len() == RESOURCE_STAGES,
        teardown_order()[i] == construction_order()[RESOURCE_STAGES - 1 - i],
{
}

/// The position at which a resource is destroyed within the teardown
/// sequence.
pub open spec fn teardown_position(kind: ResourceKind) -> int {
    match kind {
        ResourceKind::DescriptorPool => 0,
        ResourceKind::ApplicationBuffers => 1,
        ResourceKind::CommandBuffers => 2,
        ResourceKind::CommandPools => 3,
        ResourceKind::Pipeline => 4,
        ResourceKind::RenderPass => 5,
        ResourceKind::Swapchain => 6,
        ResourceKind::Allocator => 7,
        ResourceKind::LogicalDevice => 8,
        ResourceKind::PhysicalDevice => 9,
        ResourceKind::ApiInstance => 10,
        ResourceKind::WindowSurface => 11,
    }
}

/// `teardown_position` really is each resource's place in the teardown
/// sequence.
pub proof fn law_teardown_position(kind: ResourceKind)
    ensures
        0 <= teardown_position(kind) < RESOURCE_STAGES,
        teardown_order()[teardown_position(kind)] == kind,
{
}

/// Law: dependents go before what they were built from. The application's
/// buffers are destroyed before the allocator they were allocated from, the
/// allocator before the logical device, the swapchain before the surface
/// and the instance, and the logical device before the instance.
pub proof fn law_dependents_destroyed_first()
    ensures
        teardown_position(ResourceKind::ApplicationBuffers) < teardown_position(
            ResourceKind::Allocator,
        ),
        teardown_position(ResourceKind::Allocator) < teardown_position(
            ResourceKind::LogicalDevice,
        ),
        teardown_position(ResourceKind::Swapchain) < teardown_position(
            ResourceKind::WindowSurface,
        ),
        teardown_position(ResourceKind::Swapchain) < teardown_position(ResourceKind::ApiInstance),
        teardown_position(ResourceKind::LogicalDevice) < teardown_position(
            ResourceKind::ApiInstance,
        ),
{
}

} // verus!
