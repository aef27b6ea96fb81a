//! How a frame is replayed on the GPU: the sequence of calls a render pass
//! receives for the frame's commands.
use vstd::prelude::*;

use crate::geometry::Point;
use crate::pipeline::{PushConstants, FLAG_TRANSLATE};
use crate::render::Command;

verus! {

/// One call on the render pass.
#[derive(Clone, Copy, Debug)]
pub enum RenderStep {
    /// Bind the frame's vertex buffer.
    SetVertexBuffer,
    /// Bind the frame's index buffer, of `u16` indices.
    SetIndexBuffer,
    /// Bind the texture with this id.
    BindTexture(u64),
    /// Bind the default bindings, for commands without a texture.
    BindDefaultTexture,
    /// Send these push constants to the vertex and fragment stages.
    SetPushConstants(PushConstants),
    /// Draw the indices `start..end`, one instance.
    DrawIndexed { start: u32, end: u32 },
}

/// The constants of a command translated by the clip rectangle's origin
/// `clip`; a translated command is flagged as such.
pub open spec fn offset_constants(c: PushConstants, clip: Point) -> PushConstants {
    let translation = Point {
        x: (c.translation.x + clip.x) as i32,
        y: (c.translation.y + clip.y) as i32,
    };
    PushConstants {
        flags: if translation.is_zero() {
            c.flags
        } else {
            c.flags | FLAG_TRANSLATE
        },
        scale_bits: c.scale_bits,
        rotation_bits: c.rotation_bits,
        translation,
    }
}

/// Translating the constants by `clip` does not overflow `i32`.
pub open spec fn offset_fits(c: PushConstants, clip: Point) -> bool {
    &&& i32::MIN <= c.translation.x + clip.x <= i32::MAX
    &&& i32::MIN <= c.translation.y + clip.y <= i32::MAX
}

/// The calls for the commands `cs`, given the texture currently bound
/// (if any) and whether the default bindings still have to be bound: a
/// command's texture is bound unless it is the one bound now; the default
/// bindings are bound before the first command without a texture when they
/// have to be, and then no texture is bound any more; then each command
/// sends its translated constants and draws its indices.
pub open spec fn command_steps(
    cs: Seq<Command>,
    bound: Option<u64>,
    needs_default: bool,
    clip: Point,
) -> Seq<RenderStep>
    decreases cs.len(),
{
    if cs.len() == 0 {
        Seq::empty()
    } else {
        let c = cs[0];
        let binds = match c.texture {
            Some(t) => if bound == Some(t) {
                Seq::empty()
            } else {
                seq![RenderStep::BindTexture(t)]
            },
            None => if needs_default {
                seq![RenderStep::BindDefaultTexture]
            } else {
                Seq::empty()
            },
        };
        let next_bound = match c.texture {
            Some(t) => Some(t),
            None => if needs_default {
                None
            } else {
                bound
            },
        };
        let next_needs_default = match c.texture {
            Some(_) => needs_default,
            None => false,
        };
        binds + seq![
            RenderStep::SetPushConstants(offset_constants(c.constants, clip)),
            RenderStep::DrawIndexed { start: c.start, end: c.end },
        ] + command_steps(cs.drop_first(), next_bound, next_needs_default, clip)
    }
}

/// The calls that render a frame with commands `cs`: bind its buffers, then
/// replay its commands with no texture bound yet.
pub open spec fn render_steps(cs: Seq<Command>, needs_default: bool, clip: Point) -> Seq<
    RenderStep,
> {
    seq![RenderStep::SetVertexBuffer, RenderStep::SetIndexBuffer] + command_steps(
        cs,
        None,
        needs_default,
        clip,
    )
}

/// The index ranges that the draw calls among `steps` draw, in order.
pub open spec fn draw_ranges(steps: Seq<RenderStep>) -> Seq<(u32, u32)>
    decreases steps.len(),
{
    if steps.len() == 0 {
        Seq::empty()
    } else {
        let rest = draw_ranges(steps.drop_first());
        match steps[0] {
            RenderStep::DrawIndexed { start, end } => seq![(start, end)] + rest,
            _ => rest,
        }
    }
}

/// The push constants that the calls among `steps` send, in order.
pub open spec fn pushed_constants(steps: Seq<RenderStep>) -> Seq<PushConstants>
    decreases steps.len(),
{
    if steps.len() == 0 {
        Seq::empty()
    } else {
        let rest = pushed_constants(steps.drop_first());
        match steps[0] {
            RenderStep::SetPushConstants(c) => seq![c] + rest,
            _ => rest,
        }
    }
}

/// What the render pass samples from: not known, its default bindings, or a
/// texture.
#[derive(Clone, Copy, Debug, PartialEq, Eq)]
pub enum Binding {
    Unknown,
    Default,
    Texture(u64),
}

/// What the render pass samples from after the bind calls among `steps`,
/// starting from `current`.
pub open spec fn binding_after(steps: Seq<RenderStep>, current: Binding) -> Binding
    decreases steps.len(),
{
    if steps.len() == 0 {
        current
    } else {
        let next = match steps[0] {
            RenderStep::BindTexture(t) => Binding::Texture(t),
            RenderStep::BindDefaultTexture => Binding::Default,
            _ => current,
        };
        binding_after(steps.drop_first(), next)
    }
}

/// For each draw call among `steps`, in order, what the render pass samples
/// from when it draws, starting from `current`.
pub open spec fn draw_bindings(steps: Seq<RenderStep>, current: Binding) -> Seq<Binding>
    decreases steps.len(),
{
    if steps.len() == 0 {
        Seq::empty()
    } else {
        let next = match steps[0] {
            RenderStep::BindTexture(t) => Binding::Texture(t),
            RenderStep::BindDefaultTexture => Binding::Default,
            _ => current,
        };
        let rest = draw_bindings(steps.drop_first(), next);
        match steps[0] {
            RenderStep::DrawIndexed { .. } => seq![current] + rest,
            _ => rest,
        }
    }
}

} // verus!
