//! A frame of batched drawing operations: the vertices, the indices into
//! them, the textures the frame samples, and the draw commands, each of which
//! covers a run of indices drawn with one texture and one set of push
//! constants.
use vstd::prelude::*;

use crate::blit::{blit_corners, blit_indices, texture_blit_indices, TextureBlit};
use crate::geometry::{Point, Rect, UPoint, URect, Vertex, WHITE};
use crate::maps::{
    texture_slot_entries, texture_slots_clear, texture_slots_get, texture_slots_insert,
    texture_slots_new, TextureSlotMap,
};
use crate::pipeline::{draw_constants, same_constants, PushConstants, Unit, FLAG_TRANSLATE};
use crate::plan::{command_steps, offset_constants, offset_fits, render_steps, RenderStep};
use crate::vertices::{distinct, with_vertices, VertexCollection, MAX_VERTICES};

verus! {

/// One draw operation sent to the GPU: the indices `start..end`, drawn with
/// `constants` and, when there is one, the texture `texture`.
#[derive(Clone, Copy, Debug)]
pub struct Command {
    pub start: u32,
    pub end: u32,
    pub constants: PushConstants,
    pub texture: Option<u64>,
}

/// A texture as a draw uses it: its identity, whether it is an alpha mask,
/// and the GPU binding through which it is sampled.
pub struct TextureRef<B> {
    pub id: u64,
    pub is_mask: bool,
    pub bind_group: B,
}

/// A shape: its vertices, and the indices into them, three per triangle.
pub struct Shape {
    pub vertices: Vec<Vertex>,
    pub indices: Vec<u16>,
}

/// What a frame holds.
pub struct FrameView<B> {
    /// The vertex buffer.
    pub vertices: Seq<Vertex>,
    /// The index buffer.
    pub indices: Seq<u16>,
    /// The GPU binding of each texture the frame samples.
    pub textures: Map<u64, B>,
    /// The draw commands, in order.
    pub commands: Seq<Command>,
}

/// The frame that holds nothing.
pub open spec fn empty_frame<B>() -> FrameView<B> {
    FrameView {
        vertices: Seq::empty(),
        indices: Seq::empty(),
        textures: Map::empty(),
        commands: Seq::empty(),
    }
}

/// The commands cover the first `n` indices in order, each one starting
/// where the one before it ends.
pub open spec fn commands_cover(cs: Seq<Command>, n: nat) -> bool {
    if cs.len() == 0 {
        n == 0
    } else {
        &&& cs[0].start == 0
        &&& cs.last().end == n
        &&& forall|i: int| 0 <= i < cs.len() ==> (#[trigger] cs[i]).start <= cs[i].end
        &&& forall|i: int, j: int|
            #![trigger cs[i], cs[j]]
            0 <= i && j == i + 1 && j < cs.len() ==> cs[i].end == cs[j].start
    }
}

/// No two adjacent commands draw alike.
pub open spec fn neighbors_differ(cs: Seq<Command>) -> bool {
    forall|i: int, j: int|
        #![trigger cs[i], cs[j]]
        0 <= i && j == i + 1 && j < cs.len() ==> !draws_alike(cs[i], cs[j])
}

/// What holds of every frame: each vertex is stored once and addressable by
/// a `u16`; every index names a stored vertex; the index count fits a `u32`;
/// the commands cover the indices in order, and no two adjacent ones draw
/// alike; and every texture a command samples has its binding in the frame.
pub open spec fn frame_valid<B>(f: FrameView<B>) -> bool {
    &&& distinct(f.vertices)
    &&& f.vertices.len() <= MAX_VERTICES
    &&& forall|i: int| 0 <= i < f.indices.len() ==> (#[trigger] f.indices[i]) < f.vertices.len()
    &&& f.indices.len() <= u32::MAX
    &&& commands_cover(f.commands, f.indices.len())
    &&& neighbors_differ(f.commands)
    &&& forall|i: int|
        0 <= i < f.commands.len() ==> ((#[trigger] f.commands[i]).texture matches Some(t)
            ==> f.textures.dom().contains(t))
}

/// The id of the texture, if any.
pub open spec fn texture_id<B>(texture: Option<TextureRef<B>>) -> Option<u64> {
    match texture {
        Some(t) => Some(t.id),
        None => None,
    }
}

/// The textures after a draw with `texture`: a texture seen for the first
/// time is added with its binding; one already present keeps the binding it
/// has.
pub open spec fn registered<B>(textures: Map<u64, B>, texture: Option<TextureRef<B>>) -> Map<
    u64,
    B,
> {
    match texture {
        Some(t) => if textures.dom().contains(t.id) {
            textures
        } else {
            textures.insert(t.id, t.bind_group)
        },
        None => textures,
    }
}

/// The last command and `c` draw alike: same texture, same push constants.
pub open spec fn draws_alike(last: Command, c: Command) -> bool {
    last.texture == c.texture && same_constants(last.constants, c.constants)
}

/// The commands after recording `c`: when the last command has the same
/// texture and push constants, it is extended to end where `c` ends;
/// otherwise `c` is appended.
pub open spec fn recorded(cs: Seq<Command>, c: Command) -> Seq<Command> {
    if cs.len() > 0 && draws_alike(cs.last(), c) {
        cs.update(
            cs.len() - 1,
            Command {
                start: cs.last().start,
                end: c.end,
                constants: cs.last().constants,
                texture: cs.last().texture,
            },
        )
    } else {
        cs.push(c)
    }
}

/// A draw of `vs` and `is` can be recorded: every index names one of `vs`,
/// the vertex buffer keeps fitting `u16` indices, and the index buffer keeps
/// fitting `u32` positions.
pub open spec fn draw_fits<B>(f: FrameView<B>, vs: Seq<Vertex>, is: Seq<u16>) -> bool {
    &&& forall|k: int| 0 <= k < is.len() ==> (#[trigger] is[k]) < vs.len()
    &&& with_vertices(f.vertices, vs).len() <= MAX_VERTICES
    &&& f.indices.len() + is.len() <= u32::MAX
}

/// `after` is `before` with the draw of `vs` and `is` recorded: each vertex
/// of `vs` stored unless already stored; to the indices, for each of `is`,
/// the slot of the vertex it names; the texture registered; and a command
/// for the new indices, drawn with `texture` and `constants`, recorded.
pub open spec fn drawn<B>(
    before: FrameView<B>,
    after: FrameView<B>,
    vs: Seq<Vertex>,
    is: Seq<u16>,
    texture: Option<TextureRef<B>>,
    constants: PushConstants,
) -> bool {
    &&& after.vertices == with_vertices(before.vertices, vs)
    &&& after.indices.len() == before.indices.len() + is.len()
    &&& after.indices.take(before.indices.len() as int) == before.indices
    &&& forall|k: int|
        0 <= k < is.len() ==> after.vertices[after.indices[before.indices.len() + k] as int]
            == vs[#[trigger] is[k] as int]
    &&& after.textures == registered(before.textures, texture)
    &&& after.commands == recorded(
        before.commands,
        Command {
            start: before.indices.len() as u32,
            end: after.indices.len() as u32,
            constants,
            texture: texture_id(texture),
        },
    )
}

/// The clip rectangle's origin fits `i32`, and moving every command's
/// translation by it does not overflow.
pub open spec fn clip_fits<B>(f: FrameView<B>, clip_origin: UPoint) -> bool {
    &&& clip_origin.x <= i32::MAX
    &&& clip_origin.y <= i32::MAX
    &&& forall|i: int|
        0 <= i < f.commands.len() ==> offset_fits(
            #[trigger] f.commands[i].constants,
            Point { x: clip_origin.x as i32, y: clip_origin.y as i32 },
        )
}

/// The calls that render frame `f`: none when it drew no index (it has no
/// buffers then), else its buffers bound and its commands replayed.
pub open spec fn frame_steps<B>(f: FrameView<B>, needs_default: bool, clip_origin: UPoint) -> Seq<
    RenderStep,
> {
    if f.indices.len() == 0 {
        Seq::empty()
    } else {
        render_steps(
            f.commands,
            needs_default,
            Point { x: clip_origin.x as i32, y: clip_origin.y as i32 },
        )
    }
}

/// How many draw calls rendering frame `f` makes: one per command, none when
/// it drew no index.
pub open spec fn draw_call_count<B>(f: FrameView<B>) -> nat {
    if f.indices.len() == 0 {
        0
    } else {
        f.commands.len()
    }
}

/// The drawing data of a frame, which a [`Renderer`] fills and the GPU then
/// replays.
pub struct Rendering<B> {
    vertices: VertexCollection,
    indices: Vec<u16>,
    textures: TextureSlotMap,
    bind_groups: Vec<B>,
    commands: Vec<Command>,
}

impl<B> View for Rendering<B> {
    type V = FrameView<B>;

    closed spec fn view(&self) -> FrameView<B> {
        let slots = texture_slot_entries(self.textures);
        FrameView {
            vertices: self.vertices@,
            indices: self.indices@,
            textures: Map::new(
                |t: u64| slots.dom().contains(t),
                |t: u64| self.bind_groups@[slots[t] as int],
            ),
            commands: self.commands@,
        }
    }
}

impl<B> Rendering<B> {
    /// The vertex map and the texture slots are consistent, and the frame
    /// is valid.
    pub closed spec fn wf(&self) -> bool {
        &&& self.vertices.wf()
        &&& forall|t: u64|
            #[trigger] texture_slot_entries(self.textures).dom().contains(t)
                ==> texture_slot_entries(self.textures)[t] < self.bind_groups.len()
        &&& frame_valid(self@)
    }

    /// A well-formed frame is valid.
    pub proof fn lemma_valid(&self)
        requires
            self.wf(),
        ensures
            frame_valid(self@),
    {
    }

    /// A frame that holds nothing.
    pub fn new() -> (rendering: Self)
        ensures
            rendering.wf(),
            rendering@ == empty_frame::<B>(),
    {
        let rendering = Rendering {
            vertices: VertexCollection::new(),
            indices: Vec::new(),
            textures: texture_slots_new(),
            bind_groups: Vec::new(),
            commands: Vec::new(),
        };
        assert(rendering@.textures =~= Map::<u64, B>::empty());
        rendering
    }

    /// Empties the frame and hands out a renderer that fills it anew.
    pub fn new_frame(&mut self) -> (renderer: Renderer<'_, B>)
        ensures
            renderer.data.wf(),
            renderer@ == empty_frame::<B>(),
            *final(self) == *final(renderer.data),
    {
        self.commands.clear();
        self.indices.clear();
        texture_slots_clear(&mut self.textures);
        self.bind_groups.clear();
        self.vertices.clear();
        assert(self@.textures =~= Map::<u64, B>::empty());
        Renderer { data: self }
    }

    /// The vertex buffer of the frame.
    pub fn vertices(&self) -> (vertices: &[Vertex])
        ensures
            vertices@ == self@.vertices,
    {
        self.vertices.as_slice()
    }

    /// The index buffer of the frame.
    pub fn indices(&self) -> (indices: &[u16])
        ensures
            indices@ == self@.indices,
    {
        self.indices.as_slice()
    }

    /// The draw commands of the frame.
    pub fn commands(&self) -> (commands: &[Command])
        ensures
            commands@ == self@.commands,
    {
        self.commands.as_slice()
    }

    /// The binding of texture `id`, if the frame samples it.
    pub fn bind_group(&self, id: u64) -> (binding: Option<&B>)
        requires
            self.wf(),
        ensures
            match binding {
                Some(b) => self@.textures.dom().contains(id) && *b == self@.textures[id],
                None => !self@.textures.dom().contains(id),
            },
    {
        match texture_slots_get(&self.textures, id) {
            Some(slot) => Some(&self.bind_groups[slot]),
            None => None,
        }
    }

    /// The buffers to upload once the frame is drawn: none when nothing
    /// was drawn, else the vertex and index buffers.
    pub fn prepared_buffers(&self) -> (buffers: Option<(&[Vertex], &[u16])>)
        ensures
            match buffers {
                Some((vertices, indices)) => self@.indices.len() > 0 && vertices@
                    == self@.vertices && indices@ == self@.indices,
                None => self@.indices.len() == 0,
            },
    {
        if self.indices.len() == 0 {
            None
        } else {
            Some((self.vertices.as_slice(), self.indices.as_slice()))
        }
    }

    /// Whether every command's translation, moved by `clip`, still fits an
    /// `i32`.
    pub fn translations_fit(&self, clip: Point) -> (fit: bool)
        ensures
            fit == forall|i: int|
                0 <= i < self@.commands.len() ==> offset_fits(#[trigger] self@.commands[i].constants, clip),
    {
        let n = self.commands.len();
        let mut i: usize = 0;
        while i < n
            invariant
                n == self.commands@.len(),
                i <= n,
                forall|j: int| 0 <= j < i ==> offset_fits(#[trigger] self@.commands[j].constants, clip),
            decreases n - i,
        {
            let t = self.commands[i].constants.translation;
            let x = t.x as i64 + clip.x as i64;
            let y = t.y as i64 + clip.y as i64;
            if x < i32::MIN as i64 || x > i32::MAX as i64 || y < i32::MIN as i64 || y > i32::MAX as i64 {
                return false;
            }
            i = i + 1;
        }
        true
    }

    /// The calls that render this frame, given whether the render pass
    /// still needs its default bindings and the origin of the clip
    /// rectangle, by which every command is translated. A frame that drew
    /// no index has no buffers to bind and renders nothing.
    pub fn render(&self, needs_default_binding: bool, clip_origin: UPoint) -> (steps: Vec<RenderStep>)
        requires
            self@.indices.len() > 0 ==> clip_fits(self@, clip_origin),
        ensures
            steps@ == frame_steps(self@, needs_default_binding, clip_origin),
    {
        if self.indices.len() == 0 {
            return Vec::new();
        }
        let clip = Point { x: clip_origin.x as i32, y: clip_origin.y as i32 };
        let ghost cs = self@.commands;
        let mut steps: Vec<RenderStep> = Vec::new();
        steps.push(RenderStep::SetVertexBuffer);
        steps.push(RenderStep::SetIndexBuffer);
        let mut bound: Option<u64> = None;
        let mut needs_default = needs_default_binding;
        let n = self.commands.len();
        let mut i: usize = 0;
        proof {
            assert(cs.skip(0) =~= cs);
        }
        while i < n
            invariant
                n == cs.len(),
                cs == self@.commands,
                i <= n,
                forall|j: int| 0 <= j < n ==> offset_fits(#[trigger] cs[j].constants, clip),
                steps@ + command_steps(cs.skip(i as int), bound, needs_default, clip)
                    == render_steps(cs, needs_default_binding, clip),
            decreases n - i,
        {
            let command = self.commands[i];
            let ghost before = steps@;
            let ghost rest = cs.skip(i as int);
            let ghost bound_before = bound;
            let ghost needs_before = needs_default;
            proof {
                assert(rest[0] == command);
                assert(rest.drop_first() =~= cs.skip(i as int + 1));
            }
            match command.texture {
                Some(t) => {
                    if bound != Some(t) {
                        bound = Some(t);
                        steps.push(RenderStep::BindTexture(t));
                    }
                },
                None => {
                    if needs_default {
                        needs_default = false;
                        bound = None;
                        steps.push(RenderStep::BindDefaultTexture);
                    }
                },
            }
            let mut constants = command.constants;
            constants.translation = Point {
                x: constants.translation.x + clip.x,
                y: constants.translation.y + clip.y,
            };
            if !constants.translation.is_zero() {
                constants.flags = constants.flags | FLAG_TRANSLATE;
            }
            steps.push(RenderStep::SetPushConstants(constants));
            steps.push(RenderStep::DrawIndexed { start: command.start, end: command.end });
            proof {
                assert(constants == offset_constants(command.constants, clip));
                assert(steps@ + command_steps(cs.skip(i as int + 1), bound, needs_default, clip)
                    =~= before + command_steps(rest, bound_before, needs_before, clip));
            }
            i = i + 1;
        }
        proof {
            assert(cs.skip(n as int) =~= Seq::<Command>::empty());
            assert(steps@ =~= render_steps(cs, needs_default_binding, clip));
        }
        steps
    }

    /// Whether drawing `vs`, indexed by `is`, fits this frame; see
    /// [`draw_fits`].
    pub fn can_draw(&self, vs: &[Vertex], is: &[u16]) -> (fits: bool)
        requires
            self.wf(),
        ensures
            fits == draw_fits(self@, vs@, is@),
    {
        let n = vs.len();
        let m = is.len();
        let mut k: usize = 0;
        while k < m
            invariant
                m == is@.len(),
                n == vs@.len(),
                k <= m,
                forall|j: int| 0 <= j < k ==> (#[trigger] is@[j]) < n,
            decreases m - k,
        {
            if is[k] as usize >= n {
                return false;
            }
            k = k + 1;
        }
        if m > (u32::MAX as usize) - self.indices.len() {
            return false;
        }
        let fresh = self.vertices.fresh_count(vs);
        proof {
            crate::vertices::lemma_with_vertices_count(self@.vertices, vs@);
        }
        self.vertices.len() <= MAX_VERTICES && fresh <= MAX_VERTICES - self.vertices.len()
    }

    /// Records a draw of `vs` and `is`; see [`drawn`].
    fn record_draw(
        &mut self,
        vs: &[Vertex],
        is: &[u16],
        texture: Option<TextureRef<B>>,
        constants: PushConstants,
    )
        requires
            old(self).wf(),
            draw_fits(old(self)@, vs@, is@),
        ensures
            final(self).wf(),
            drawn(old(self)@, final(self)@, vs@, is@, texture, constants),
    {
        let ghost before = self@;
        proof {
            self.vertices.lemma_distinct();
            crate::vertices::lemma_with_vertices_distinct(before.vertices, vs@);
        }
        // Store the vertices, remembering the slot of each.
        let mut slot_of: Vec<u16> = Vec::new();
        let n = vs.len();
        for i in 0..n
            invariant
                n == vs@.len(),
                self.vertices.wf(),
                self.vertices@ == with_vertices(before.vertices, vs@.take(i as int)),
                with_vertices(before.vertices, vs@).len() <= MAX_VERTICES,
                self.indices == old(self).indices,
                self.textures == old(self).textures,
                self.bind_groups == old(self).bind_groups,
                self.commands == old(self).commands,
                slot_of@.len() == i,
                forall|j: int|
                    0 <= j < i ==> (#[trigger] slot_of@[j]) < self.vertices@.len()
                        && self.vertices@[slot_of@[j] as int] == vs@[j],
        {
            proof {
                crate::vertices::lemma_with_vertices_step(before.vertices, vs@, i as int);
                crate::vertices::lemma_with_vertices_prefix(before.vertices, vs@, i as int + 1);
            }
            let ghost stored = self.vertices@;
            let slot = self.vertices.get_or_insert(vs[i]);
            slot_of.push(slot);
            proof {
                assert forall|j: int|
                    0 <= j < i + 1 implies (#[trigger] slot_of@[j]) < self.vertices@.len()
                    && self.vertices@[slot_of@[j] as int] == vs@[j] by {
                    if j < i {
                        assert(self.vertices@[slot_of@[j] as int] == stored[slot_of@[j] as int]);
                    }
                }
            }
        }
        proof {
            assert(vs@.take(n as int) =~= vs@);
            self.vertices.lemma_distinct();
            crate::vertices::lemma_with_vertices_extends(before.vertices, vs@);
            assert(frame_valid(before));
        }
        let ghost stored = self.vertices@;
        let ghost collection = self.vertices;
        // Append the slot of each indexed vertex.
        let start = self.indices.len();
        let m = is.len();
        for k in 0..m
            invariant
                m == is@.len(),
                start == before.indices.len(),
                self.vertices == collection,
                collection.wf(),
                collection@ == stored,
                self.textures == old(self).textures,
                self.bind_groups == old(self).bind_groups,
                self.commands == old(self).commands,
                self.indices@.len() == start + k,
                self.indices@.take(start as int) == before.indices,
                forall|j: int|
                    0 <= j < k ==> stored[self.indices@[start + j] as int] == vs@[
                        #[trigger] is@[j] as int],
                forall|j: int|
                    0 <= j < self.indices@.len() ==> (#[trigger] self.indices@[j]) < stored.len(),
                forall|j: int| 0 <= j < m ==> (#[trigger] is@[j]) < vs@.len(),
                slot_of@.len() == vs@.len(),
                forall|j: int|
                    0 <= j < slot_of@.len() ==> (#[trigger] slot_of@[j]) < stored.len()
                        && stored[slot_of@[j] as int] == vs@[j],
                forall|j: int| 0 <= j < before.indices.len() ==> #[trigger] before.indices[j] < before.vertices.len(),
                before.vertices.len() <= stored.len(),
        {
            let slot = slot_of[is[k] as usize];
            let ghost prior = self.indices@;
            self.indices.push(slot);
            proof {
                assert(self.indices@.take(start as int) =~= prior.take(start as int));
                assert forall|j: int|
                    0 <= j < self.indices@.len() implies (#[trigger] self.indices@[j])
                    < stored.len() by {
                    if j < prior.len() {
                        assert(self.indices@[j] == prior[j]);
                    }
                }
                assert forall|j: int|
                    0 <= j < k + 1 implies stored[self.indices@[start + j] as int] == vs@[
                    #[trigger] is@[j] as int] by {
                    if j < k {
                        assert(self.indices@[start + j] == prior[start + j]);
                    }
                }
            }
        }
        let end = self.indices.len();
        // Register the texture, keeping the binding of one already present.
        let ghost slots_before = texture_slot_entries(self.textures);
        let ghost groups_before = self.bind_groups@;
        assert(forall|t: u64| #[trigger] slots_before.dom().contains(t) ==> slots_before[t]
            < groups_before.len());
        let id = match texture {
            Some(t) => {
                if texture_slots_get(&self.textures, t.id).is_none() {
                    let slot = self.bind_groups.len();
                    self.bind_groups.push(t.bind_group);
                    texture_slots_insert(&mut self.textures, t.id, slot);
                    proof {
                        let slots = texture_slot_entries(self.textures);
                        assert forall|u: u64| #[trigger] slots.dom().contains(u) implies slots[u]
                            < self.bind_groups.len() by {
                            if u != t.id {
                                assert(slots_before.dom().contains(u));
                            }
                        }
                        assert forall|u: u64| #[trigger] slots_before.dom().contains(u) implies
                            self.bind_groups@[slots[u] as int] == groups_before[slots_before[u] as int] by {
                        }
                    }
                }
                Some(t.id)
            },
            None => None,
        };
        proof {
            assert(self@.textures =~= registered(before.textures, texture));
        }
        // Extend the last command when it draws alike, else add one.
        let count = self.commands.len();
        let command = Command { start: start as u32, end: end as u32, constants, texture: id };
        let mut extended = false;
        if count > 0 {
            let last = self.commands[count - 1];
            if last.texture == id && last.constants.same_as(&constants) {
                self.commands[count - 1] = Command {
                    start: last.start,
                    end: end as u32,
                    constants: last.constants,
                    texture: last.texture,
                };
                extended = true;
            }
        }
        if !extended {
            self.commands.push(command);
        }
        proof {
            let after = self@;
            assert(after.commands =~= recorded(before.commands, command));
            assert(after.indices.take(before.indices.len() as int) == before.indices);
            assert forall|i: int| 0 <= i < after.indices.len() implies (#[trigger] after.indices[i])
                < after.vertices.len() by {
            }
            assert forall|k: int|
                0 <= k < is@.len() implies after.vertices[after.indices[before.indices.len() + k] as int]
                == vs@[#[trigger] is@[k] as int] by {
            }
            lemma_recorded_covers(before.commands, command, before.indices.len(), after.indices.len());
            lemma_recorded_neighbors_differ(before.commands, command);
            assert forall|i: int|
                0 <= i < after.commands.len() implies ((#[trigger] after.commands[i]).texture matches Some(t)
                ==> after.textures.dom().contains(t)) by {
                if i < before.commands.len() {
                    assert(before.commands[i].texture matches Some(t) ==> before.textures.dom().contains(t));
                }
            }
        }
    }
}

impl<B> Default for Rendering<B> {
    /// A frame that holds nothing.
    fn default() -> (rendering: Self)
        ensures
            rendering.wf(),
            rendering@ == empty_frame::<B>(),
    {
        Rendering::new()
    }
}

/// Recording a command keeps adjacent commands different: a command like the
/// last one extends it instead of following it.
pub proof fn lemma_recorded_neighbors_differ(cs: Seq<Command>, c: Command)
    requires
        neighbors_differ(cs),
    ensures
        neighbors_differ(recorded(cs, c)),
{
    let r = recorded(cs, c);
    assert forall|i: int, j: int|
        #![trigger r[i], r[j]]
        0 <= i && j == i + 1 && j < r.len() implies !draws_alike(r[i], r[j]) by {
        if cs.len() > 0 && draws_alike(cs.last(), c) {
            assert(!draws_alike(cs[i], cs[j]));
        } else if j < cs.len() {
            assert(!draws_alike(cs[i], cs[j]));
        }
    }
}

/// Recording a command that starts where the commands end keeps them
/// covering the indices, now up to where the command ends.
pub proof fn lemma_recorded_covers(cs: Seq<Command>, c: Command, n: nat, m: nat)
    requires
        commands_cover(cs, n),
        c.start == n,
        c.end == m,
        n <= m,
    ensures
        commands_cover(recorded(cs, c), m),
{
    let r = recorded(cs, c);
    if cs.len() > 0 && draws_alike(cs.last(), c) {
        assert forall|i: int, j: int|
            #![trigger r[i], r[j]]
            0 <= i && j == i + 1 && j < r.len() implies r[i].end == r[j].start by {
            assert(cs[i].end == cs[j].start);
        }
        assert forall|i: int| 0 <= i < r.len() implies (#[trigger] r[i]).start <= r[i].end by {
            if i < r.len() - 1 {
                assert(cs[i].start <= cs[i].end);
            } else {
                assert(cs[i].start <= cs[i].end);
            }
        }
    } else {
        if cs.len() > 0 {
            assert forall|i: int, j: int|
                #![trigger r[i], r[j]]
                0 <= i && j == i + 1 && j < r.len() implies r[i].end == r[j].start by {
                if j < cs.len() {
                    assert(cs[i].end == cs[j].start);
                }
            }
            assert forall|i: int| 0 <= i < r.len() implies (#[trigger] r[i]).start <= r[i].end by {
                if i < cs.len() {
                    assert(cs[i].start <= cs[i].end);
                }
            }
        }
    }
}

/// Records drawing operations into the frame it was handed out for.
pub struct Renderer<'a, B> {
    pub data: &'a mut Rendering<B>,
}

impl<'a, B> View for Renderer<'a, B> {
    type V = FrameView<B>;

    open spec fn view(&self) -> FrameView<B> {
        self.data@
    }
}

/// Whether the texture of a draw, if any, is an alpha mask.
pub open spec fn is_masked<B>(texture: Option<TextureRef<B>>) -> bool {
    match texture {
        Some(t) => t.is_mask,
        None => false,
    }
}

impl<'a, B> Renderer<'a, B> {
    /// Draws the vertices `vs`, indexed by `is`, with `texture` if there is
    /// one, at `origin`, rotated by the angle (in radians) whose `f32` bit
    /// pattern is `rotation`, scaled by the factor whose bit pattern is
    /// `scale`. The draw joins the last command when that command has the
    /// same texture and push constants.
    pub fn inner_draw(
        &mut self,
        vs: &[Vertex],
        is: &[u16],
        texture: Option<TextureRef<B>>,
        unit: Unit,
        origin: Point,
        rotation: Option<u32>,
        scale: Option<u32>,
    )
        requires
            old(self).data.wf(),
            draw_fits(old(self)@, vs@, is@),
        ensures
            final(self).data.wf(),
            drawn(
                old(self)@,
                final(self)@,
                vs@,
                is@,
                texture,
                draw_constants(unit.flags(), texture is Some, is_masked(texture), scale, rotation, origin),
            ),
    {
        let (textured, masked) = match &texture {
            Some(t) => (true, t.is_mask),
            None => (false, false),
        };
        let constants = PushConstants::for_draw(
            unit.flags(),
            textured,
            masked,
            scale,
            rotation,
            origin,
        );
        self.data.record_draw(vs, is, texture, constants);
    }

    /// Draws `shape`, whose vertices are in `unit`, at `origin`, rotating
    /// and scaling as needed; see [`Renderer::inner_draw`].
    pub fn draw_shape(
        &mut self,
        shape: &Shape,
        unit: Unit,
        origin: Point,
        rotation: Option<u32>,
        scale: Option<u32>,
    )
        requires
            old(self).data.wf(),
            draw_fits(old(self)@, shape.vertices@, shape.indices@),
        ensures
            final(self).data.wf(),
            drawn(
                old(self)@,
                final(self)@,
                shape.vertices@,
                shape.indices@,
                None,
                draw_constants(unit.flags(), false, false, scale, rotation, origin),
            ),
    {
        self.inner_draw(
            shape.vertices.as_slice(),
            shape.indices.as_slice(),
            None,
            unit,
            origin,
            rotation,
            scale,
        );
    }

    /// Draws `shape`, whose vertices carry texture coordinates, sampling
    /// `texture`; see [`Renderer::inner_draw`].
    pub fn draw_textured_shape(
        &mut self,
        shape: &Shape,
        texture: TextureRef<B>,
        unit: Unit,
        origin: Point,
        rotation: Option<u32>,
        scale: Option<u32>,
    )
        requires
            old(self).data.wf(),
            draw_fits(old(self)@, shape.vertices@, shape.indices@),
        ensures
            final(self).data.wf(),
            drawn(
                old(self)@,
                final(self)@,
                shape.vertices@,
                shape.indices@,
                Some(texture),
                draw_constants(unit.flags(), true, texture.is_mask, scale, rotation, origin),
            ),
    {
        self.inner_draw(
            shape.vertices.as_slice(),
            shape.indices.as_slice(),
            Some(texture),
            unit,
            origin,
            rotation,
            scale,
        );
    }

    /// Draws `source` of `texture` onto `destination`, scaling as needed:
    /// a white-tinted quad, neither translated, rotated nor scaled.
    pub fn draw_texture(
        &mut self,
        texture: TextureRef<B>,
        source: URect,
        destination: Rect,
        unit: Unit,
    )
        requires
            old(self).data.wf(),
            source.fits(),
            destination.fits(),
            draw_fits(old(self)@, blit_corners(source, destination, WHITE), blit_indices()),
        ensures
            final(self).data.wf(),
            drawn(
                old(self)@,
                final(self)@,
                blit_corners(source, destination, WHITE),
                blit_indices(),
                Some(texture),
                draw_constants(unit.flags(), true, texture.is_mask, None, None, Point { x: 0, y: 0 }),
            ),
    {
        let blit = TextureBlit::new(source, destination, WHITE);
        let indices = texture_blit_indices();
        self.inner_draw(
            blit.vertices(),
            indices.as_slice(),
            Some(texture),
            unit,
            Point::zero(),
            None,
            None,
        );
    }

    /// Draws one glyph of laid-out text: the quad `blit` sampling the glyph
    /// cache's `texture`, in pixels, translated by `translation`, rotated
    /// and scaled as for a shape. The glyph joins the last command when that
    /// command has the same texture and push constants.
    pub fn draw_glyph(
        &mut self,
        blit: &TextureBlit,
        texture: TextureRef<B>,
        translation: Point,
        rotation: Option<u32>,
        scale: Option<u32>,
    )
        requires
            old(self).data.wf(),
            draw_fits(old(self)@, blit@, blit_indices()),
        ensures
            final(self).data.wf(),
            drawn(
                old(self)@,
                final(self)@,
                blit@,
                blit_indices(),
                Some(texture),
                draw_constants(Unit::Px.flags(), true, texture.is_mask, scale, rotation, translation),
            ),
    {
        let constants = PushConstants::for_draw(
            Unit::Px.flags(),
            true,
            texture.is_mask,
            scale,
            rotation,
            translation,
        );
        let indices = texture_blit_indices();
        self.data.record_draw(blit.vertices(), indices.as_slice(), Some(texture), constants);
    }

    /// Whether drawing `vs`, indexed by `is`, fits this frame; see
    /// [`draw_fits`].
    pub fn can_draw(&self, vs: &[Vertex], is: &[u16]) -> (fits: bool)
        requires
            self.data.wf(),
        ensures
            fits == draw_fits(self@, vs@, is@),
    {
        self.data.can_draw(vs, is)
    }

    /// The number of vertices that compose the drawing commands.
    pub fn vertex_count(&self) -> (count: usize)
        ensures
            count == self@.vertices.len(),
    {
        self.data.vertices.len()
    }

    /// The number of triangles the drawing commands render.
    pub fn triangle_count(&self) -> (count: usize)
        ensures
            count == self@.indices.len() / 3,
    {
        self.data.indices.len() / 3
    }

    /// The number of draw calls that rendering the frame sends to the GPU:
    /// one per command, none when the frame drew no index.
    pub fn command_count(&self) -> (count: usize)
        ensures
            count == draw_call_count(self@),
    {
        if self.data.indices.len() == 0 {
            0
        } else {
            self.data.commands.len()
        }
    }
}

} // verus!
