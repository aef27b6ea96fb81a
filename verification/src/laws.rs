//! What holds of the renderer across its operations.
use vstd::prelude::*;

use crate::geometry::{Point, Vertex};
use crate::pipeline::{f32_equal, f32_is_nan, same_constants, PushConstants};
use crate::plan::{
    binding_after, command_steps, draw_bindings, draw_ranges, offset_constants, pushed_constants,
    render_steps, Binding, RenderStep,
};
use crate::pipeline::{
    draw_constants, Unit, FLAG_DIPS, FLAG_MASKED, FLAG_ROTATE, FLAG_SCALE, FLAG_TEXTURED,
    FLAG_TRANSLATE, ONE_F32_BITS,
};
use crate::geometry::Rect;
use crate::blit::blit_corners;
use crate::render::{
    commands_cover, draw_call_count, drawn, empty_frame, frame_steps, frame_valid, registered,
    texture_id, Command, FrameView, TextureRef,
};
use crate::geometry::UPoint;
use crate::vertices::{distinct, with_vertices};

verus! {

/// Float equality on bit patterns is symmetric.
pub proof fn lemma_f32_equal_symmetric(a: u32, b: u32)
    ensures
        f32_equal(a, b) == f32_equal(b, a),
{
    assert((a | b) == (b | a)) by (bit_vector);
}

/// Float equality on bit patterns is transitive.
pub proof fn lemma_f32_equal_transitive(a: u32, b: u32, c: u32)
    requires
        f32_equal(a, b),
        f32_equal(b, c),
    ensures
        f32_equal(a, c),
{
    assert(((a | b) & 0x7FFF_FFFF) == 0 && ((b | c) & 0x7FFF_FFFF) == 0 ==> ((a | c) & 0x7FFF_FFFF)
        == 0) by (bit_vector);
}

/// Every value but NaN equals itself.
pub proof fn lemma_f32_equal_reflexive(a: u32)
    ensures
        f32_equal(a, a) == !f32_is_nan(a),
{
}

/// Push constants whose scale and rotation are numbers equal themselves.
pub proof fn lemma_same_constants_reflexive(c: PushConstants)
    requires
        !f32_is_nan(c.scale_bits),
        !f32_is_nan(c.rotation_bits),
    ensures
        same_constants(c, c),
{
}

/// A draw that repeats the texture and push constants of the draw before it
/// adds no command: the two are sent to the GPU as one. (Push constants
/// with a NaN scale or rotation never equal anything, so they are left out.)
pub proof fn lemma_repeated_draw_batches<B>(
    f0: FrameView<B>,
    f1: FrameView<B>,
    f2: FrameView<B>,
    vs1: Seq<Vertex>,
    is1: Seq<u16>,
    vs2: Seq<Vertex>,
    is2: Seq<u16>,
    texture1: Option<TextureRef<B>>,
    texture2: Option<TextureRef<B>>,
    constants: PushConstants,
)
    requires
        drawn(f0, f1, vs1, is1, texture1, constants),
        drawn(f1, f2, vs2, is2, texture2, constants),
        texture_id(texture1) == texture_id(texture2),
        !f32_is_nan(constants.scale_bits),
        !f32_is_nan(constants.rotation_bits),
    ensures
        f2.commands.len() == f1.commands.len(),
        f2.commands.last().end == f2.indices.len() as u32,
        f2.commands.last().texture == texture_id(texture2),
{
    let last = f1.commands.last();
    assert(same_constants(last.constants, constants)) by {
        let c0 = f0.commands;
        if c0.len() > 0 && c0.last().texture == texture_id(texture1) && same_constants(
            c0.last().constants,
            constants,
        ) {
            assert(last.constants == c0.last().constants);
        } else {
            assert(last.constants == constants);
        }
    }
    assert(last.texture == texture_id(texture1));
}

/// A draw whose texture or push constants differ from those of the last
/// command adds one command, which draws exactly the new indices.
pub proof fn lemma_different_draw_adds_command<B>(
    before: FrameView<B>,
    after: FrameView<B>,
    vs: Seq<Vertex>,
    is: Seq<u16>,
    texture: Option<TextureRef<B>>,
    constants: PushConstants,
)
    requires
        drawn(before, after, vs, is, texture, constants),
        before.commands.len() == 0 || before.commands.last().texture != texture_id(texture)
            || !same_constants(before.commands.last().constants, constants),
    ensures
        after.commands.len() == before.commands.len() + 1,
        after.commands.last().start == before.indices.len() as u32,
        after.commands.last().end == after.indices.len() as u32,
        after.commands.last().texture == texture_id(texture),
{
}

/// Drawing vertices that are all stored already stores nothing: each
/// distinct vertex is kept once per frame.
pub proof fn lemma_stored_vertices_are_reused(s: Seq<Vertex>, vs: Seq<Vertex>)
    requires
        forall|i: int| 0 <= i < vs.len() ==> s.contains(#[trigger] vs[i]),
    ensures
        with_vertices(s, vs) == s,
    decreases vs.len(),
{
    if vs.len() > 0 {
        lemma_stored_vertices_are_reused(s, vs.drop_last());
        assert(s.contains(vs[vs.len() - 1]));
    }
}

/// A texture keeps the binding it was first drawn with for the rest of the
/// frame: drawing it again, with any binding, changes nothing, and its
/// binding reads back as the first one.
pub proof fn lemma_first_binding_kept<B>(
    textures: Map<u64, B>,
    first: TextureRef<B>,
    again: TextureRef<B>,
)
    requires
        first.id == again.id,
    ensures
        registered(registered(textures, Some(first)), Some(again)) == registered(
            textures,
            Some(first),
        ),
        registered(textures, Some(first)).dom().contains(first.id),
        !textures.dom().contains(first.id) ==> registered(textures, Some(first))[first.id]
            == first.bind_group,
{
}

/// Splitting steps splits the draws they make.
pub proof fn lemma_draw_ranges_append(a: Seq<RenderStep>, b: Seq<RenderStep>)
    ensures
        draw_ranges(a + b) == draw_ranges(a) + draw_ranges(b),
    decreases a.len(),
{
    if a.len() == 0 {
        assert(a + b =~= b);
        assert(draw_ranges(a) =~= Seq::<(u32, u32)>::empty());
        assert(draw_ranges(a) + draw_ranges(b) =~= draw_ranges(b));
    } else {
        lemma_draw_ranges_append(a.drop_first(), b);
        assert((a + b).drop_first() =~= a.drop_first() + b);
        match a[0] {
            RenderStep::DrawIndexed { start, end } => {
                assert(seq![(start, end)] + (draw_ranges(a.drop_first()) + draw_ranges(b))
                    =~= (seq![(start, end)] + draw_ranges(a.drop_first())) + draw_ranges(b));
            },
            _ => {},
        }
    }
}

/// A single step draws its range if it is a draw call, else nothing.
pub proof fn lemma_draw_ranges_single(step: RenderStep)
    ensures
        draw_ranges(seq![step]) == match step {
            RenderStep::DrawIndexed { start, end } => seq![(start, end)],
            _ => Seq::<(u32, u32)>::empty(),
        },
{
    assert(seq![step].drop_first() =~= Seq::<RenderStep>::empty());
    assert(draw_ranges(Seq::<RenderStep>::empty()) == Seq::<(u32, u32)>::empty());
    match step {
        RenderStep::DrawIndexed { start, end } => {
            assert(seq![(start, end)] + Seq::<(u32, u32)>::empty() =~= seq![(start, end)]);
        },
        _ => {},
    }
}

/// The index range of each command, in order.
pub open spec fn command_ranges(cs: Seq<Command>) -> Seq<(u32, u32)> {
    cs.map_values(|c: Command| (c.start, c.end))
}

/// The bind call, if any, that replaying command `c` starts with.
pub open spec fn command_binds(c: Command, bound: Option<u64>, needs_default: bool) -> Seq<
    RenderStep,
> {
    match c.texture {
        Some(t) => if bound == Some(t) {
            Seq::empty()
        } else {
            seq![RenderStep::BindTexture(t)]
        },
        None => if needs_default {
            seq![RenderStep::BindDefaultTexture]
        } else {
            Seq::empty()
        },
    }
}

/// Replaying commands is: the first command's bind call, its constants and
/// its draw, then the rest replayed.
pub proof fn lemma_command_steps_unfold(
    cs: Seq<Command>,
    bound: Option<u64>,
    needs_default: bool,
    clip: Point,
)
    requires
        cs.len() > 0,
    ensures
        command_steps(cs, bound, needs_default, clip) == command_binds(cs[0], bound, needs_default)
            + seq![
            RenderStep::SetPushConstants(offset_constants(cs[0].constants, clip)),
            RenderStep::DrawIndexed { start: cs[0].start, end: cs[0].end },
        ] + command_steps(
            cs.drop_first(),
            match cs[0].texture {
                Some(t) => Some(t),
                None => if needs_default {
                    None
                } else {
                    bound
                },
            },
            match cs[0].texture {
                Some(_) => needs_default,
                None => false,
            },
            clip,
        ),
{
}

/// Replaying commands draws exactly their index ranges, in order.
pub proof fn lemma_command_steps_draw_ranges(
    cs: Seq<Command>,
    bound: Option<u64>,
    needs_default: bool,
    clip: Point,
)
    ensures
        draw_ranges(command_steps(cs, bound, needs_default, clip)) == command_ranges(cs),
    decreases cs.len(),
{
    if cs.len() == 0 {
        assert(command_ranges(cs) =~= Seq::<(u32, u32)>::empty());
    } else {
        let c = cs[0];
        let next_bound = match c.texture {
            Some(t) => Some(t),
            None => if needs_default {
                None
            } else {
                bound
            },
        };
        let next_needs_default = match c.texture {
            Some(_) => needs_default,
            None => false,
        };
        lemma_command_steps_draw_ranges(cs.drop_first(), next_bound, next_needs_default, clip);
        lemma_command_steps_unfold(cs, bound, needs_default, clip);
        let binds = command_binds(c, bound, needs_default);
        let push = RenderStep::SetPushConstants(offset_constants(c.constants, clip));
        let draw = RenderStep::DrawIndexed { start: c.start, end: c.end };
        let own = seq![push, draw];
        let rest = command_steps(cs.drop_first(), next_bound, next_needs_default, clip);
        assert(draw_ranges(binds) =~= Seq::<(u32, u32)>::empty()) by {
            if binds.len() > 0 {
                assert(binds =~= seq![binds[0]]);
                lemma_draw_ranges_single(binds[0]);
            } else {
                assert(binds =~= Seq::<RenderStep>::empty());
            }
        }
        assert(own =~= seq![push] + seq![draw]);
        lemma_draw_ranges_append(seq![push], seq![draw]);
        lemma_draw_ranges_single(push);
        lemma_draw_ranges_single(draw);
        assert(draw_ranges(own) =~= seq![(c.start, c.end)]);
        lemma_draw_ranges_append(binds + own, rest);
        lemma_draw_ranges_append(binds, own);
        assert(command_ranges(cs) =~= seq![(c.start, c.end)] + command_ranges(cs.drop_first()));
        assert(draw_ranges(binds) + draw_ranges(own) =~= seq![(c.start, c.end)]);
    }
}

/// Rendering a valid frame draws every index of it exactly once, in
/// order: the draw calls are the commands' ranges, which start at the first
/// index, each begin where the one before ends, and end at the last.
pub proof fn lemma_render_draws_every_index_once<B>(
    f: FrameView<B>,
    needs_default: bool,
    clip: Point,
)
    requires
        frame_valid(f),
    ensures
        draw_ranges(render_steps(f.commands, needs_default, clip)) == command_ranges(f.commands),
        commands_cover(f.commands, f.indices.len()),
{
    let head = seq![RenderStep::SetVertexBuffer, RenderStep::SetIndexBuffer];
    lemma_draw_ranges_append(head, command_steps(f.commands, None, needs_default, clip));
    assert(head =~= seq![RenderStep::SetVertexBuffer] + seq![RenderStep::SetIndexBuffer]);
    lemma_draw_ranges_append(seq![RenderStep::SetVertexBuffer], seq![RenderStep::SetIndexBuffer]);
    lemma_draw_ranges_single(RenderStep::SetVertexBuffer);
    lemma_draw_ranges_single(RenderStep::SetIndexBuffer);
    assert(draw_ranges(head) =~= Seq::<(u32, u32)>::empty());
    lemma_command_steps_draw_ranges(f.commands, None, needs_default, clip);
    assert(draw_ranges(head) + command_ranges(f.commands) =~= command_ranges(f.commands));
}

/// Every texture that replaying commands binds is the texture of one of
/// them.
pub proof fn lemma_command_steps_bind_command_textures(
    cs: Seq<Command>,
    bound: Option<u64>,
    needs_default: bool,
    clip: Point,
    t: u64,
)
    requires
        command_steps(cs, bound, needs_default, clip).contains(RenderStep::BindTexture(t)),
    ensures
        exists|i: int| 0 <= i < cs.len() && (#[trigger] cs[i]).texture == Some(t),
    decreases cs.len(),
{
    let steps = command_steps(cs, bound, needs_default, clip);
    let c = cs[0];
    let next_bound = match c.texture {
        Some(u) => Some(u),
        None => if needs_default {
            None
        } else {
            bound
        },
    };
    let next_needs_default = match c.texture {
        Some(_) => needs_default,
        None => false,
    };
    lemma_command_steps_unfold(cs, bound, needs_default, clip);
    let binds = command_binds(c, bound, needs_default);
    let own = seq![
        RenderStep::SetPushConstants(offset_constants(c.constants, clip)),
        RenderStep::DrawIndexed { start: c.start, end: c.end },
    ];
    let rest = command_steps(cs.drop_first(), next_bound, next_needs_default, clip);
    let k = choose|k: int| 0 <= k < steps.len() && steps[k] == RenderStep::BindTexture(t);
    if k < binds.len() {
        assert(binds[k] == steps[k]);
        assert(cs[0].texture == Some(t));
    } else if k < binds.len() + own.len() {
        assert(own[k - binds.len()] == steps[k]);
    } else {
        assert(rest[k - binds.len() - own.len()] == steps[k]);
        lemma_command_steps_bind_command_textures(
            cs.drop_first(),
            next_bound,
            next_needs_default,
            clip,
            t,
        );
        let i = choose|i: int|
            0 <= i < cs.drop_first().len() && (#[trigger] cs.drop_first()[i]).texture == Some(t);
        assert(cs[i + 1].texture == Some(t));
    }
}

/// Rendering a valid frame only binds textures whose bindings the frame
/// holds, so looking a bound texture's binding up never fails.
pub proof fn lemma_render_binds_held_textures<B>(
    f: FrameView<B>,
    needs_default: bool,
    clip: Point,
    t: u64,
)
    requires
        frame_valid(f),
        render_steps(f.commands, needs_default, clip).contains(RenderStep::BindTexture(t)),
    ensures
        f.textures.dom().contains(t),
{
    let steps = render_steps(f.commands, needs_default, clip);
    let tail = command_steps(f.commands, None, needs_default, clip);
    let k = choose|k: int| 0 <= k < steps.len() && steps[k] == RenderStep::BindTexture(t);
    assert(k >= 2);
    assert(tail[k - 2] == steps[k]);
    lemma_command_steps_bind_command_textures(f.commands, None, needs_default, clip, t);
    let i = choose|i: int|
        0 <= i < f.commands.len() && (#[trigger] f.commands[i]).texture == Some(t);
    assert(f.commands[i].texture matches Some(u) ==> f.textures.dom().contains(u));
}

/// What a single step leaves bound, and what it draws with.
pub proof fn lemma_bindings_single(step: RenderStep, current: Binding)
    ensures
        binding_after(seq![step], current) == match step {
            RenderStep::BindTexture(t) => Binding::Texture(t),
            RenderStep::BindDefaultTexture => Binding::Default,
            _ => current,
        },
        draw_bindings(seq![step], current) == match step {
            RenderStep::DrawIndexed { .. } => seq![current],
            _ => Seq::<Binding>::empty(),
        },
{
    let next = match step {
        RenderStep::BindTexture(t) => Binding::Texture(t),
        RenderStep::BindDefaultTexture => Binding::Default,
        _ => current,
    };
    assert(seq![step].drop_first() =~= Seq::<RenderStep>::empty());
    assert(binding_after(Seq::<RenderStep>::empty(), next) == next);
    assert(draw_bindings(Seq::<RenderStep>::empty(), next) == Seq::<Binding>::empty());
    assert(seq![current] + Seq::<Binding>::empty() =~= seq![current]);
}

/// Splitting steps splits what their draws sample from.
pub proof fn lemma_bindings_append(a: Seq<RenderStep>, b: Seq<RenderStep>, current: Binding)
    ensures
        draw_bindings(a + b, current) == draw_bindings(a, current) + draw_bindings(
            b,
            binding_after(a, current),
        ),
        binding_after(a + b, current) == binding_after(b, binding_after(a, current)),
    decreases a.len(),
{
    if a.len() == 0 {
        assert(a + b =~= b);
        assert(draw_bindings(a, current) + draw_bindings(b, current) =~= draw_bindings(b, current));
    } else {
        let next = match a[0] {
            RenderStep::BindTexture(t) => Binding::Texture(t),
            RenderStep::BindDefaultTexture => Binding::Default,
            _ => current,
        };
        lemma_bindings_append(a.drop_first(), b, next);
        assert((a + b).drop_first() =~= a.drop_first() + b);
        assert((a + b)[0] == a[0]);
        match a[0] {
            RenderStep::DrawIndexed { .. } => {
                assert(seq![current] + (draw_bindings(a.drop_first(), next) + draw_bindings(
                    b,
                    binding_after(a.drop_first(), next),
                )) =~= (seq![current] + draw_bindings(a.drop_first(), next)) + draw_bindings(
                    b,
                    binding_after(a.drop_first(), next),
                ));
            },
            _ => {},
        }
    }
}

/// Replaying commands draws each textured command with its own texture,
/// provided the texture the replay believes bound is the one the pass
/// samples from.
pub proof fn lemma_command_steps_bindings(
    cs: Seq<Command>,
    bound: Option<u64>,
    needs_default: bool,
    clip: Point,
    current: Binding,
)
    requires
        bound matches Some(t) ==> current == Binding::Texture(t),
    ensures
        draw_bindings(command_steps(cs, bound, needs_default, clip), current).len() == cs.len(),
        forall|i: int|
            0 <= i < cs.len() ==> ((#[trigger] cs[i]).texture matches Some(t) ==> draw_bindings(
                command_steps(cs, bound, needs_default, clip),
                current,
            )[i] == Binding::Texture(t)),
    decreases cs.len(),
{
    if cs.len() > 0 {
        let c = cs[0];
        let next_bound = match c.texture {
            Some(t) => Some(t),
            None => if needs_default {
                None
            } else {
                bound
            },
        };
        let next_needs_default = match c.texture {
            Some(_) => needs_default,
            None => false,
        };
        lemma_command_steps_unfold(cs, bound, needs_default, clip);
        let binds = command_binds(c, bound, needs_default);
        let push = RenderStep::SetPushConstants(offset_constants(c.constants, clip));
        let draw = RenderStep::DrawIndexed { start: c.start, end: c.end };
        let own = seq![push, draw];
        let rest = command_steps(cs.drop_first(), next_bound, next_needs_default, clip);
        let steps = command_steps(cs, bound, needs_default, clip);
        let after_binds = binding_after(binds, current);
        assert(draw_bindings(binds, current) =~= Seq::<Binding>::empty()) by {
            if binds.len() > 0 {
                assert(binds =~= seq![binds[0]]);
                lemma_bindings_single(binds[0], current);
            } else {
                assert(binds =~= Seq::<RenderStep>::empty());
            }
        }
        assert(next_bound matches Some(t) ==> after_binds == Binding::Texture(t)) by {
            if binds.len() > 0 {
                assert(binds =~= seq![binds[0]]);
                lemma_bindings_single(binds[0], current);
            } else {
                assert(binds =~= Seq::<RenderStep>::empty());
            }
        }
        assert(own =~= seq![push] + seq![draw]);
        lemma_bindings_append(seq![push], seq![draw], after_binds);
        lemma_bindings_single(push, after_binds);
        lemma_bindings_single(draw, after_binds);
        assert(draw_bindings(own, after_binds) =~= seq![after_binds]);
        lemma_bindings_append(binds, own, current);
        lemma_bindings_append(binds + own, rest, current);
        lemma_command_steps_bindings(cs.drop_first(), next_bound, next_needs_default, clip, after_binds);
        let tail = draw_bindings(rest, after_binds);
        assert(draw_bindings(steps, current) =~= seq![after_binds] + tail);
        assert forall|i: int|
            0 <= i < cs.len() implies ((#[trigger] cs[i]).texture matches Some(t) ==> draw_bindings(
            steps,
            current,
        )[i] == Binding::Texture(t)) by {
            if i > 0 {
                assert(cs.drop_first()[i - 1] == cs[i]);
            }
        }
    }
}

/// Rendering a frame draws every textured command with its own texture
/// bound, also after commands without a texture have bound the default
/// bindings in between.
pub proof fn lemma_render_draws_with_own_texture(cs: Seq<Command>, needs_default: bool, clip: Point)
    ensures
        draw_bindings(render_steps(cs, needs_default, clip), Binding::Unknown).len() == cs.len(),
        forall|i: int|
            0 <= i < cs.len() ==> ((#[trigger] cs[i]).texture matches Some(t) ==> draw_bindings(
                render_steps(cs, needs_default, clip),
                Binding::Unknown,
            )[i] == Binding::Texture(t)),
{
    let head = seq![RenderStep::SetVertexBuffer, RenderStep::SetIndexBuffer];
    let tail = command_steps(cs, None, needs_default, clip);
    assert(head =~= seq![RenderStep::SetVertexBuffer] + seq![RenderStep::SetIndexBuffer]);
    lemma_bindings_append(seq![RenderStep::SetVertexBuffer], seq![RenderStep::SetIndexBuffer], Binding::Unknown);
    lemma_bindings_single(RenderStep::SetVertexBuffer, Binding::Unknown);
    lemma_bindings_single(RenderStep::SetIndexBuffer, Binding::Unknown);
    assert(draw_bindings(head, Binding::Unknown) =~= Seq::<Binding>::empty());
    lemma_bindings_append(head, tail, Binding::Unknown);
    lemma_command_steps_bindings(cs, None, needs_default, clip, Binding::Unknown);
    assert(draw_bindings(render_steps(cs, needs_default, clip), Binding::Unknown) =~= draw_bindings(
        tail,
        Binding::Unknown,
    ));
}

/// One draw as a frame records it: the vertices and indices drawn, the
/// texture sampled, and the push constants.
pub struct DrawCall<B> {
    pub vertices: Seq<Vertex>,
    pub indices: Seq<u16>,
    pub texture: Option<TextureRef<B>>,
    pub constants: PushConstants,
}

/// The frames `fs` are what recording the draws `ds` one after the other
/// passes through.
pub open spec fn draws_made<B>(fs: Seq<FrameView<B>>, ds: Seq<DrawCall<B>>) -> bool {
    &&& fs.len() == ds.len() + 1
    &&& forall|i: int|
        0 <= i < ds.len() ==> drawn(
            fs[i],
            fs[i + 1],
            (#[trigger] ds[i]).vertices,
            ds[i].indices,
            ds[i].texture,
            ds[i].constants,
        )
}

/// Every vertex the draws `ds` draw, in order.
pub open spec fn all_vertices<B>(ds: Seq<DrawCall<B>>) -> Seq<Vertex>
    decreases ds.len(),
{
    if ds.len() == 0 {
        Seq::empty()
    } else {
        all_vertices(ds.drop_last()) + ds.last().vertices
    }
}

/// How many indices the draws `ds` draw.
pub open spec fn index_total<B>(ds: Seq<DrawCall<B>>) -> nat
    decreases ds.len(),
{
    if ds.len() == 0 {
        0
    } else {
        index_total(ds.drop_last()) + ds.last().indices.len()
    }
}

/// Asking for `a` then `b` is asking for `a + b`.
pub proof fn lemma_with_vertices_append(s: Seq<Vertex>, a: Seq<Vertex>, b: Seq<Vertex>)
    ensures
        with_vertices(with_vertices(s, a), b) == with_vertices(s, a + b),
    decreases b.len(),
{
    if b.len() == 0 {
        assert(a + b =~= a);
    } else {
        lemma_with_vertices_append(s, a, b.drop_last());
        assert((a + b).drop_last() =~= a + b.drop_last());
        assert((a + b).last() == b.last());
    }
}

/// Over the draws of a frame begun empty: the vertex buffer holds each
/// distinct vertex drawn once, so the vertex count is the number of distinct
/// vertices drawn; the index count is the number of indices drawn (the
/// triangle count being a third of it); there are commands exactly when
/// there were draws, never more commands than draws, and no draw removes a
/// command.
pub proof fn lemma_frame_counts<B>(fs: Seq<FrameView<B>>, ds: Seq<DrawCall<B>>)
    requires
        draws_made(fs, ds),
        fs[0] == empty_frame::<B>(),
    ensures
        fs.last().vertices == with_vertices(Seq::empty(), all_vertices(ds)),
        distinct(fs.last().vertices),
        fs.last().vertices.len() == all_vertices(ds).to_set().len(),
        fs.last().indices.len() == index_total(ds),
        (fs.last().commands.len() == 0) == (ds.len() == 0),
        fs.last().commands.len() <= ds.len(),
        forall|i: int| 0 <= i < ds.len() ==> fs[i].commands.len() <= #[trigger] fs[i + 1].commands.len(),
    decreases ds.len(),
{
    let n = ds.len() as int;
    if n == 0 {
        assert(all_vertices(ds) =~= Seq::<Vertex>::empty());
        assert(all_vertices(ds).to_set() =~= Set::<Vertex>::empty());
    } else {
        let fs0 = fs.drop_last();
        let ds0 = ds.drop_last();
        assert forall|i: int| 0 <= i < ds0.len() implies drawn(
            fs0[i],
            fs0[i + 1],
            (#[trigger] ds0[i]).vertices,
            ds0[i].indices,
            ds0[i].texture,
            ds0[i].constants,
        ) by {
            assert(ds0[i] == ds[i]);
        }
        lemma_frame_counts(fs0, ds0);
        let last = ds[n - 1];
        assert(ds[n - 1] == ds.last());
        assert(drawn(fs[n - 1], fs[n], last.vertices, last.indices, last.texture, last.constants));
        assert(fs0.last() == fs[n - 1]);
        lemma_with_vertices_append(Seq::empty(), all_vertices(ds0), last.vertices);
        crate::vertices::lemma_with_vertices_distinct(Seq::<Vertex>::empty(), all_vertices(ds));
        crate::vertices::lemma_with_vertices_count(Seq::<Vertex>::empty(), all_vertices(ds));
        let stored = fs.last().vertices;
        assert(stored.to_set() =~= all_vertices(ds).to_set()) by {
            assert forall|v: Vertex| stored.to_set().contains(v) <==> all_vertices(ds).to_set().contains(v) by {
                assert(Seq::<Vertex>::empty().contains(v) == false);
            }
        }
        stored.unique_seq_to_set();
        assert forall|i: int| 0 <= i < ds.len() implies fs[i].commands.len() <= #[trigger] fs[i + 1].commands.len() by {
            if i < n - 1 {
                assert(fs0[i + 1] == fs[i + 1]);
                assert(fs0[i] == fs[i]);
            }
        }
    }
}

/// A draw's outcome is determined: recording the same draw into the same
/// valid frame gives the same valid frame.
pub proof fn lemma_drawn_determined<B>(
    before: FrameView<B>,
    a: FrameView<B>,
    b: FrameView<B>,
    d: DrawCall<B>,
)
    requires
        drawn(before, a, d.vertices, d.indices, d.texture, d.constants),
        drawn(before, b, d.vertices, d.indices, d.texture, d.constants),
        frame_valid(a),
        frame_valid(b),
    ensures
        a == b,
{
    let n = before.indices.len();
    assert(a.vertices == b.vertices);
    assert forall|j: int| 0 <= j < a.indices.len() implies a.indices[j] == b.indices[j] by {
        if j < n {
            assert(a.indices.take(n as int)[j] == b.indices.take(n as int)[j]);
        } else {
            let k = j - n;
            assert(a.vertices[a.indices[n + k] as int] == d.vertices[d.indices[k] as int]);
            assert(b.vertices[b.indices[n + k] as int] == d.vertices[d.indices[k] as int]);
            assert(a.indices[j] < a.vertices.len());
            assert(b.indices[j] < b.vertices.len());
        }
    }
    assert(a.indices =~= b.indices);
    assert(a.commands =~= b.commands);
    assert(a.textures =~= b.textures);
}

/// The same draws recorded into the same frame give the same frame: what a
/// frame holds depends on the draws made since it was emptied and nothing
/// else.
pub proof fn lemma_same_draws_same_frame<B>(
    fs: Seq<FrameView<B>>,
    gs: Seq<FrameView<B>>,
    ds: Seq<DrawCall<B>>,
)
    requires
        draws_made(fs, ds),
        draws_made(gs, ds),
        fs[0] == gs[0],
        forall|i: int| 0 <= i < fs.len() ==> frame_valid(#[trigger] fs[i]),
        forall|i: int| 0 <= i < gs.len() ==> frame_valid(#[trigger] gs[i]),
    ensures
        fs.last() == gs.last(),
    decreases ds.len(),
{
    let n = ds.len() as int;
    if n > 0 {
        let fs0 = fs.drop_last();
        let gs0 = gs.drop_last();
        let ds0 = ds.drop_last();
        assert forall|i: int| 0 <= i < ds0.len() implies drawn(
            fs0[i],
            fs0[i + 1],
            (#[trigger] ds0[i]).vertices,
            ds0[i].indices,
            ds0[i].texture,
            ds0[i].constants,
        ) && drawn(gs0[i], gs0[i + 1], ds0[i].vertices, ds0[i].indices, ds0[i].texture, ds0[i].constants) by {
            assert(ds0[i] == ds[i]);
        }
        assert forall|i: int| 0 <= i < fs0.len() implies frame_valid(#[trigger] fs0[i]) by {
            assert(fs0[i] == fs[i]);
        }
        assert forall|i: int| 0 <= i < gs0.len() implies frame_valid(#[trigger] gs0[i]) by {
            assert(gs0[i] == gs[i]);
        }
        lemma_same_draws_same_frame(fs0, gs0, ds0);
        assert(ds[n - 1] == ds.last());
        assert(fs0.last() == fs[n - 1]);
        assert(gs0.last() == gs[n - 1]);
        assert(frame_valid(fs[n]));
        assert(frame_valid(gs[n]));
        lemma_drawn_determined(fs[n - 1], fs[n], gs[n], ds[n - 1]);
    }
}

/// The command count is the number of draw calls that rendering the frame
/// makes: one per command, none when the frame drew no index.
pub proof fn lemma_command_count_is_draw_calls<B>(
    f: FrameView<B>,
    needs_default: bool,
    clip_origin: UPoint,
)
    requires
        frame_valid(f),
    ensures
        draw_ranges(frame_steps(f, needs_default, clip_origin)).len() == draw_call_count(f),
{
    if f.indices.len() == 0 {
        assert(draw_ranges(Seq::<RenderStep>::empty()) == Seq::<(u32, u32)>::empty());
    } else {
        lemma_render_draws_every_index_once(
            f,
            needs_default,
            Point { x: clip_origin.x as i32, y: clip_origin.y as i32 },
        );
    }
}

/// Splitting steps splits the constants they send.
pub proof fn lemma_pushed_constants_append(a: Seq<RenderStep>, b: Seq<RenderStep>)
    ensures
        pushed_constants(a + b) == pushed_constants(a) + pushed_constants(b),
    decreases a.len(),
{
    if a.len() == 0 {
        assert(a + b =~= b);
        assert(pushed_constants(a) + pushed_constants(b) =~= pushed_constants(b));
    } else {
        lemma_pushed_constants_append(a.drop_first(), b);
        assert((a + b).drop_first() =~= a.drop_first() + b);
        match a[0] {
            RenderStep::SetPushConstants(c) => {
                assert(seq![c] + (pushed_constants(a.drop_first()) + pushed_constants(b))
                    =~= (seq![c] + pushed_constants(a.drop_first())) + pushed_constants(b));
            },
            _ => {},
        }
    }
}

/// A single step sends its constants if it is a push-constants call.
pub proof fn lemma_pushed_constants_single(step: RenderStep)
    ensures
        pushed_constants(seq![step]) == match step {
            RenderStep::SetPushConstants(c) => seq![c],
            _ => Seq::<PushConstants>::empty(),
        },
{
    assert(seq![step].drop_first() =~= Seq::<RenderStep>::empty());
    assert(pushed_constants(Seq::<RenderStep>::empty()) == Seq::<PushConstants>::empty());
    match step {
        RenderStep::SetPushConstants(c) => {
            assert(seq![c] + Seq::<PushConstants>::empty() =~= seq![c]);
        },
        _ => {},
    }
}

/// Replaying commands sends, for each command in order, its constants
/// moved by the clip origin.
pub proof fn lemma_command_steps_constants(
    cs: Seq<Command>,
    bound: Option<u64>,
    needs_default: bool,
    clip: Point,
)
    ensures
        pushed_constants(command_steps(cs, bound, needs_default, clip)).len() == cs.len(),
        forall|i: int|
            0 <= i < cs.len() ==> pushed_constants(command_steps(cs, bound, needs_default, clip))[i]
                == offset_constants((#[trigger] cs[i]).constants, clip),
    decreases cs.len(),
{
    if cs.len() > 0 {
        let c = cs[0];
        let next_bound = match c.texture {
            Some(t) => Some(t),
            None => if needs_default {
                None
            } else {
                bound
            },
        };
        let next_needs_default = match c.texture {
            Some(_) => needs_default,
            None => false,
        };
        lemma_command_steps_unfold(cs, bound, needs_default, clip);
        lemma_command_steps_constants(cs.drop_first(), next_bound, next_needs_default, clip);
        let binds = command_binds(c, bound, needs_default);
        let push = RenderStep::SetPushConstants(offset_constants(c.constants, clip));
        let draw = RenderStep::DrawIndexed { start: c.start, end: c.end };
        let own = seq![push, draw];
        let rest = command_steps(cs.drop_first(), next_bound, next_needs_default, clip);
        assert(pushed_constants(binds) =~= Seq::<PushConstants>::empty()) by {
            if binds.len() > 0 {
                assert(binds =~= seq![binds[0]]);
                lemma_pushed_constants_single(binds[0]);
            } else {
                assert(binds =~= Seq::<RenderStep>::empty());
            }
        }
        assert(own =~= seq![push] + seq![draw]);
        lemma_pushed_constants_append(seq![push], seq![draw]);
        lemma_pushed_constants_single(push);
        lemma_pushed_constants_single(draw);
        lemma_pushed_constants_append(binds, own);
        lemma_pushed_constants_append(binds + own, rest);
        let steps = command_steps(cs, bound, needs_default, clip);
        assert(pushed_constants(steps) =~= seq![offset_constants(c.constants, clip)]
            + pushed_constants(rest));
        assert forall|i: int| 0 <= i < cs.len() implies pushed_constants(steps)[i]
            == offset_constants((#[trigger] cs[i]).constants, clip) by {
            if i > 0 {
                assert(cs.drop_first()[i - 1] == cs[i]);
            }
        }
    }
}

/// Rendering sends, for each command in order, push constants that carry
/// the command's own translation plus the clip origin, its own scale and
/// rotation, and its own flags, with the translation flag added exactly
/// when that sum is not the origin.
pub proof fn lemma_render_moves_each_command_by_the_clip(
    cs: Seq<Command>,
    needs_default: bool,
    clip: Point,
)
    requires
        forall|i: int|
            0 <= i < cs.len() ==> i32::MIN <= (#[trigger] cs[i]).constants.translation.x + clip.x
                <= i32::MAX && i32::MIN <= cs[i].constants.translation.y + clip.y <= i32::MAX,
    ensures
        pushed_constants(render_steps(cs, needs_default, clip)).len() == cs.len(),
        forall|i: int|
            0 <= i < cs.len() ==> {
                let sent = pushed_constants(render_steps(cs, needs_default, clip))[i];
                let own = (#[trigger] cs[i]).constants;
                &&& sent.translation.x == own.translation.x + clip.x
                &&& sent.translation.y == own.translation.y + clip.y
                &&& sent.scale_bits == own.scale_bits
                &&& sent.rotation_bits == own.rotation_bits
                &&& sent.flags == if own.translation.x + clip.x == 0 && own.translation.y + clip.y
                    == 0 {
                    own.flags
                } else {
                    own.flags | FLAG_TRANSLATE
                }
            },
{
    let head = seq![RenderStep::SetVertexBuffer, RenderStep::SetIndexBuffer];
    let tail = command_steps(cs, None, needs_default, clip);
    assert(head =~= seq![RenderStep::SetVertexBuffer] + seq![RenderStep::SetIndexBuffer]);
    lemma_pushed_constants_append(seq![RenderStep::SetVertexBuffer], seq![RenderStep::SetIndexBuffer]);
    lemma_pushed_constants_single(RenderStep::SetVertexBuffer);
    lemma_pushed_constants_single(RenderStep::SetIndexBuffer);
    lemma_pushed_constants_append(head, tail);
    lemma_command_steps_constants(cs, None, needs_default, clip);
    assert(pushed_constants(render_steps(cs, needs_default, clip)) =~= pushed_constants(tail));
}

/// A point is the origin exactly when both its coordinates are zero.
pub proof fn lemma_is_zero_means_origin(p: Point)
    ensures
        p.spec_is_zero() <==> (p.x == 0 && p.y == 0),
{
}

/// The flags of a draw say, each on its own bit, exactly what applies: the
/// unit is in device-independent pixels, a texture is sampled, the texture
/// is a mask, a scale is given, a rotation is given, the translation is not
/// the origin. An absent scale is 1.0 and an absent rotation 0.0; the
/// translation is the draw's own.
pub proof fn lemma_draw_flags(
    unit: Unit,
    textured: bool,
    masked: bool,
    scale: Option<u32>,
    rotation: Option<u32>,
    translation: Point,
)
    ensures
        ({
            let c = draw_constants(unit.spec_flags(), textured, masked, scale, rotation, translation);
            &&& (c.flags & 1 != 0) <==> unit == Unit::Lp
            &&& (c.flags & 16 != 0) <==> textured
            &&& (c.flags & 32 != 0) <==> masked
            &&& (c.flags & 2 != 0) <==> scale is Some
            &&& (c.flags & 4 != 0) <==> rotation is Some
            &&& (c.flags & 8 != 0) <==> (translation.x != 0 || translation.y != 0)
            &&& c.flags & !63u32 == 0
            &&& c.scale_bits == match scale {
                Some(s) => s,
                None => 0x3F80_0000u32,
            }
            &&& c.rotation_bits == match rotation {
                Some(r) => r,
                None => 0u32,
            }
            &&& c.translation == translation
        }),
{
    let dips = unit == Unit::Lp;
    let scaled = scale is Some;
    let rotated = rotation is Some;
    let moved = translation.x != 0 || translation.y != 0;
    let u: u32 = if dips { 1 } else { 0 };
    let t: u32 = if textured { 16 } else { 0 };
    let m: u32 = if masked { 32 } else { 0 };
    let sc: u32 = if scaled { 2 } else { 0 };
    let r: u32 = if rotated { 4 } else { 0 };
    let tr: u32 = if moved { 8 } else { 0 };
    assert(FLAG_DIPS == 1 && FLAG_TEXTURED == 16 && FLAG_MASKED == 32 && FLAG_SCALE == 2
        && FLAG_ROTATE == 4 && FLAG_TRANSLATE == 8 && ONE_F32_BITS == 0x3F80_0000);
    let c = draw_constants(unit.spec_flags(), textured, masked, scale, rotation, translation);
    assert(unit.spec_flags() == u);
    assert(c.flags == u | t | m | sc | r | tr);
    assert({
        let f = u | t | m | sc | r | tr;
        &&& (f & 1 != 0) <==> dips
        &&& (f & 16 != 0) <==> textured
        &&& (f & 32 != 0) <==> masked
        &&& (f & 2 != 0) <==> scaled
        &&& (f & 4 != 0) <==> rotated
        &&& (f & 8 != 0) <==> moved
        &&& f & !63u32 == 0
    }) by (bit_vector)
        requires
            u == (if dips { 1u32 } else { 0u32 }),
            t == (if textured { 16u32 } else { 0u32 }),
            m == (if masked { 32u32 } else { 0u32 }),
            sc == (if scaled { 2u32 } else { 0u32 }),
            r == (if rotated { 4u32 } else { 0u32 }),
            tr == (if moved { 8u32 } else { 0u32 }),
    ;
}

/// Equal push constants are equal field by field: the same flags and
/// translation, and a scale and rotation that are numbers equal as floats
/// (the same bits, or zeros of either sign).
pub proof fn lemma_same_constants_fields(a: PushConstants, b: PushConstants)
    ensures
        same_constants(a, b) <==> {
            &&& a.flags == b.flags
            &&& a.translation.x == b.translation.x
            &&& a.translation.y == b.translation.y
            &&& !((a.scale_bits & 0x7F80_0000) == 0x7F80_0000 && (a.scale_bits & 0x007F_FFFF) != 0)
            &&& !((b.scale_bits & 0x7F80_0000) == 0x7F80_0000 && (b.scale_bits & 0x007F_FFFF) != 0)
            &&& (a.scale_bits == b.scale_bits || ((a.scale_bits | b.scale_bits) & 0x7FFF_FFFF) == 0)
            &&& !((a.rotation_bits & 0x7F80_0000) == 0x7F80_0000 && (a.rotation_bits & 0x007F_FFFF)
                != 0)
            &&& !((b.rotation_bits & 0x7F80_0000) == 0x7F80_0000 && (b.rotation_bits & 0x007F_FFFF)
                != 0)
            &&& (a.rotation_bits == b.rotation_bits || ((a.rotation_bits | b.rotation_bits)
                & 0x7FFF_FFFF) == 0)
        },
{
}

/// Batching never changes how a draw is rendered: when a draw joins the
/// last command, that command ends where the draw's indices end and has the
/// draw's texture, flags and translation, and float-equal scale and
/// rotation; otherwise the draw gets a command with its own constants.
pub proof fn lemma_batched_draw_renders_alike<B>(
    before: FrameView<B>,
    after: FrameView<B>,
    vs: Seq<Vertex>,
    is: Seq<u16>,
    texture: Option<TextureRef<B>>,
    constants: PushConstants,
)
    requires
        drawn(before, after, vs, is, texture, constants),
    ensures
        after.commands.len() > 0,
        after.commands.last().end == after.indices.len() as u32,
        after.commands.last().texture == texture_id(texture),
        after.commands.last().constants.flags == constants.flags,
        after.commands.last().constants.translation.x == constants.translation.x,
        after.commands.last().constants.translation.y == constants.translation.y,
        after.commands.len() == before.commands.len() ==> same_constants(
            after.commands.last().constants,
            constants,
        ),
        after.commands.len() == before.commands.len() + 1 ==> {
            &&& after.commands.last().start == before.indices.len() as u32
            &&& after.commands.last().constants == constants
        },
{
    if before.commands.len() > 0 {
        lemma_same_constants_fields(before.commands.last().constants, constants);
    }
}

/// A rectangle's top-left corner lies at its smaller coordinates and its
/// bottom-right corner at its larger ones: the two corners are the
/// rectangle's two ends on each axis, in order.
pub proof fn lemma_rect_corners(r: Rect)
    ensures
        r.top_left().0 <= r.bottom_right().0,
        r.top_left().1 <= r.bottom_right().1,
        r.top_left().0 + r.bottom_right().0 == r.origin.x + r.origin.x + r.size.width,
        r.top_left().1 + r.bottom_right().1 == r.origin.y + r.origin.y + r.size.height,
        r.top_left().0 == r.origin.x || r.top_left().0 == r.origin.x + r.size.width,
        r.top_left().1 == r.origin.y || r.top_left().1 == r.origin.y + r.size.height,
{
}

/// The quad that draws a texture rectangle onto a destination is upright
/// and unmirrored: its corners are the destination's top-left, top-right,
/// bottom-left and bottom-right (left and top being the smaller
/// coordinates), and each samples the same corner of the source.
pub proof fn lemma_blit_is_upright(source: crate::geometry::URect, dest: Rect, color: u32)
    requires
        source.fits(),
        dest.fits(),
    ensures
        ({
            let v = blit_corners(source, dest, color);
            let x0 = dest.origin.x as int;
            let x1 = dest.origin.x + dest.size.width;
            let y0 = dest.origin.y as int;
            let y1 = dest.origin.y + dest.size.height;
            let left = if x0 <= x1 { x0 } else { x1 };
            let right = if x0 <= x1 { x1 } else { x0 };
            let top = if y0 <= y1 { y0 } else { y1 };
            let bottom = if y0 <= y1 { y1 } else { y0 };
            let u0 = source.origin.x as int;
            let u1 = source.origin.x + source.size.width;
            let w0 = source.origin.y as int;
            let w1 = source.origin.y + source.size.height;
            &&& v.len() == 4
            &&& v[0].location.x == left && v[0].location.y == top
            &&& v[1].location.x == right && v[1].location.y == top
            &&& v[2].location.x == left && v[2].location.y == bottom
            &&& v[3].location.x == right && v[3].location.y == bottom
            &&& v[0].texture.x == u0 && v[0].texture.y == w0
            &&& v[1].texture.x == u1 && v[1].texture.y == w0
            &&& v[2].texture.x == u0 && v[2].texture.y == w1
            &&& v[3].texture.x == u1 && v[3].texture.y == w1
            &&& v[0].color == color && v[1].color == color && v[2].color == color && v[3].color
                == color
        }),
{
}

} // verus!
