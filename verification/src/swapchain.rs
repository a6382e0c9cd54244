//! Per-image framebuffers and depth buffers of the swapchain.

use vstd::prelude::*;

verus! {

/// The framebuffers (`F`) and depth buffers (`D`) of the swapchain images, one pair
/// per image, in image order.
pub struct SwapchainManager<F, D> {
    framebuffers: Vec<F>,
    depth_buffers: Vec<D>,
}

impl<F, D> SwapchainManager<F, D> {
    /// The framebuffers, in image order.
    pub closed spec fn framebuffer_seq(&self) -> Seq<F> {
        self.framebuffers@
    }

    /// The depth buffers, in image order.
    pub closed spec fn depth_buffer_seq(&self) -> Seq<D> {
        self.depth_buffers@
    }

    /// One depth buffer per framebuffer.
    pub closed spec fn wf(&self) -> bool {
        self.framebuffers@.len() == self.depth_buffers@.len()
    }

    /// Take the framebuffers and depth buffers created for the swapchain images.
    pub fn new(framebuffers: Vec<F>, depth_buffers: Vec<D>) -> (m: Self)
        requires
            framebuffers@.len() == depth_buffers@.len(),
        ensures
            m.wf(),
            m.framebuffer_seq() == framebuffers@,
            m.depth_buffer_seq() == depth_buffers@,
    {
        SwapchainManager { framebuffers, depth_buffers }
    }

    /// Replace the buffers after the swapchain was recreated.
    pub fn recreate_framebuffers(&mut self, framebuffers: Vec<F>, depth_buffers: Vec<D>)
        requires
            framebuffers@.len() == depth_buffers@.len(),
        ensures
            final(self).wf(),
            final(self).framebuffer_seq() == framebuffers@,
            final(self).depth_buffer_seq() == depth_buffers@,
    {
        self.framebuffers = framebuffers;
        self.depth_buffers = depth_buffers;
    }

    /// The framebuffer of swapchain image `image_index`.
    pub fn get_framebuffer(&self, image_index: usize) -> (f: &F)
        requires
            image_index < self.framebuffer_seq().len(),
        ensures
            *f == self.framebuffer_seq()[image_index as int],
    {
        &self.framebuffers[image_index]
    }

    /// Number of framebuffers.
    pub fn framebuffer_count(&self) -> (n: usize)
        ensures
            n == self.framebuffer_seq().len(),
    {
        self.framebuffers.len()
    }
}

} // verus!
