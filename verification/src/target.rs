//! Presentation targets: the images that are drawn into and shown.

use crate::pipeline::RenderPass;
use vstd::prelude::*;

verus! {

/// An image on the device, by the handle under which the device knows it.
#[derive(Clone, Copy, Debug, PartialEq, Eq, Structural)]
pub struct Image(pub u64);

/// One presentation target: a colour image and the depth buffer, bound to a
/// render pass.
#[derive(Clone, Copy, Debug, PartialEq, Eq, Structural)]
pub struct Framebuffer {
    pub render_pass: RenderPass,
    pub color: Image,
    pub depth: Image,
}

/// One framebuffer per image, in the order of the images, all on the same
/// render pass and all sharing the one depth buffer.
pub open spec fn framebuffers_of(
    images: Seq<Image>,
    render_pass: RenderPass,
    depth_buffer: Image,
) -> Seq<Framebuffer> {
    Seq::new(
        images.len(),
        |i: int| Framebuffer { render_pass, color: images[i], depth: depth_buffer },
    )
}

/// Builds the framebuffers of a set of presentation images.
pub fn create_framebuffers(images: &[Image], render_pass: RenderPass, depth_buffer: Image) -> (r:
    Vec<Framebuffer>)
    ensures
        r@ == framebuffers_of(images@, render_pass, depth_buffer),
{
    let mut r: Vec<Framebuffer> = Vec::new();
    let mut i: usize = 0;
    while i < images.len()
        invariant
            i <= images.len(),
            r@ == framebuffers_of(images@, render_pass, depth_buffer).take(i as int),
        decreases images.len() - i,
    {
        r.push(Framebuffer { render_pass, color: images[i], depth: depth_buffer });
        i += 1;
    }
    r
}

} // verus!
