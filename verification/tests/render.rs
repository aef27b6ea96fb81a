use kludgine::blit::{texture_blit_indices, TextureBlit};
use kludgine::geometry::{Point, Rect, Size, UPoint, URect, USize, Vertex, WHITE};
use kludgine::pipeline::{
    f32_bits_equal, PushConstants, Unit, FLAG_DIPS, FLAG_MASKED, FLAG_ROTATE, FLAG_SCALE,
    FLAG_TEXTURED, FLAG_TRANSLATE, ONE_F32_BITS,
};
use kludgine::plan::RenderStep;
use kludgine::render::{Rendering, Shape, TextureRef};

fn vertex(x: i32, y: i32, color: u32) -> Vertex {
    Vertex { location: Point { x, y }, texture: UPoint { x: 0, y: 0 }, color }
}

fn triangle(color: u32) -> Shape {
    Shape {
        vertices: vec![vertex(0, 0, color), vertex(10, 0, color), vertex(0, 10, color)],
        indices: vec![0, 1, 2],
    }
}

fn texture(id: u64, binding: &str) -> TextureRef<String> {
    TextureRef { id, is_mask: false, bind_group: binding.to_string() }
}

fn origin() -> Point {
    Point { x: 0, y: 0 }
}

#[test]
fn new_frame_is_empty() {
    let mut rendering: Rendering<String> = Rendering::new();
    let renderer = rendering.new_frame();
    assert_eq!(renderer.vertex_count(), 0);
    assert_eq!(renderer.triangle_count(), 0);
    assert_eq!(renderer.command_count(), 0);
    assert!(rendering.prepared_buffers().is_none());
}

#[test]
fn new_frame_clears_the_previous_frame() {
    let mut rendering: Rendering<String> = Rendering::new();
    {
        let mut renderer = rendering.new_frame();
        renderer.draw_textured_shape(&triangle(1), texture(7, "a"), Unit::Px, origin(), None, None);
        assert_eq!(renderer.command_count(), 1);
    }
    let renderer = rendering.new_frame();
    assert_eq!(renderer.vertex_count(), 0);
    assert_eq!(renderer.triangle_count(), 0);
    assert_eq!(renderer.command_count(), 0);
    assert!(rendering.bind_group(7).is_none());
}

#[test]
fn draw_shape_records_one_command() {
    let mut rendering: Rendering<String> = Rendering::new();
    let mut renderer = rendering.new_frame();
    let shape = triangle(5);
    assert!(renderer.can_draw(&shape.vertices, &shape.indices));
    renderer.draw_shape(&shape, Unit::Px, origin(), None, None);
    assert_eq!(renderer.vertex_count(), 3);
    assert_eq!(renderer.triangle_count(), 1);
    assert_eq!(renderer.command_count(), 1);
    let command = rendering.commands()[0];
    assert_eq!((command.start, command.end), (0, 3));
    assert_eq!(command.texture, None);
    assert_eq!(command.constants.flags, 0);
    assert_eq!(command.constants.scale_bits, ONE_F32_BITS);
    assert_eq!(command.constants.rotation_bits, 0);
    assert_eq!(rendering.indices(), &[0, 1, 2]);
    assert_eq!(rendering.vertices(), &triangle(5).vertices[..]);
}

#[test]
fn repeated_vertices_are_stored_once() {
    let mut rendering: Rendering<String> = Rendering::new();
    let mut renderer = rendering.new_frame();
    renderer.draw_shape(&triangle(5), Unit::Px, origin(), None, None);
    renderer.draw_shape(&triangle(5), Unit::Px, origin(), None, None);
    assert_eq!(renderer.vertex_count(), 3);
    assert_eq!(renderer.triangle_count(), 2);
    // Same texture and constants: the second draw joins the first command.
    assert_eq!(renderer.command_count(), 1);
    assert_eq!(rendering.indices(), &[0, 1, 2, 0, 1, 2]);
    let command = rendering.commands()[0];
    assert_eq!((command.start, command.end), (0, 6));
}

#[test]
fn shared_vertices_within_a_shape_are_stored_once() {
    let mut rendering: Rendering<String> = Rendering::new();
    let mut renderer = rendering.new_frame();
    let quad = Shape {
        vertices: vec![vertex(0, 0, 1), vertex(1, 0, 1), vertex(0, 1, 1), vertex(1, 0, 1)],
        indices: vec![0, 1, 2, 3, 2, 1],
    };
    renderer.draw_shape(&quad, Unit::Px, origin(), None, None);
    assert_eq!(renderer.vertex_count(), 3);
    assert_eq!(rendering.indices(), &[0, 1, 2, 1, 2, 1]);
}

#[test]
fn translated_draw_starts_a_new_command() {
    let mut rendering: Rendering<String> = Rendering::new();
    let mut renderer = rendering.new_frame();
    renderer.draw_shape(&triangle(5), Unit::Px, origin(), None, None);
    renderer.draw_shape(&triangle(5), Unit::Px, Point { x: 3, y: 4 }, None, None);
    assert_eq!(renderer.command_count(), 2);
    assert_eq!(renderer.vertex_count(), 3);
    let second = rendering.commands()[1];
    assert_eq!((second.start, second.end), (3, 6));
    assert_eq!(second.constants.flags, FLAG_TRANSLATE);
    assert_eq!(second.constants.translation, Point { x: 3, y: 4 });
}

#[test]
fn scale_and_rotation_set_their_flags() {
    let mut rendering: Rendering<String> = Rendering::new();
    let mut renderer = rendering.new_frame();
    let scale = 2.0f32.to_bits();
    let rotation = 0.5f32.to_bits();
    renderer.draw_shape(&triangle(5), Unit::Lp, origin(), Some(rotation), Some(scale));
    let command = rendering.commands()[0];
    assert_eq!(command.constants.flags, FLAG_DIPS | FLAG_SCALE | FLAG_ROTATE);
    assert_eq!(command.constants.scale_bits, scale);
    assert_eq!(command.constants.rotation_bits, rotation);
}

#[test]
fn nan_scale_never_batches() {
    let mut rendering: Rendering<String> = Rendering::new();
    let mut renderer = rendering.new_frame();
    let nan = f32::NAN.to_bits();
    renderer.draw_shape(&triangle(5), Unit::Px, origin(), None, Some(nan));
    renderer.draw_shape(&triangle(5), Unit::Px, origin(), None, Some(nan));
    assert_eq!(renderer.command_count(), 2);
}

#[test]
fn signed_zero_rotations_batch() {
    let mut rendering: Rendering<String> = Rendering::new();
    let mut renderer = rendering.new_frame();
    renderer.draw_shape(&triangle(5), Unit::Px, origin(), Some(0.0f32.to_bits()), None);
    renderer.draw_shape(&triangle(5), Unit::Px, origin(), Some((-0.0f32).to_bits()), None);
    assert_eq!(renderer.command_count(), 1);
}

#[test]
fn textured_draw_registers_its_texture() {
    let mut rendering: Rendering<String> = Rendering::new();
    let mut renderer = rendering.new_frame();
    renderer.draw_textured_shape(&triangle(1), texture(7, "seven"), Unit::Px, origin(), None, None);
    let command = rendering.commands()[0];
    assert_eq!(command.texture, Some(7));
    assert_eq!(command.constants.flags, FLAG_TEXTURED);
    assert_eq!(rendering.bind_group(7), Some(&"seven".to_string()));
    assert_eq!(rendering.bind_group(8), None);
}

#[test]
fn a_texture_keeps_its_first_binding() {
    let mut rendering: Rendering<String> = Rendering::new();
    let mut renderer = rendering.new_frame();
    renderer.draw_textured_shape(&triangle(1), texture(7, "first"), Unit::Px, origin(), None, None);
    renderer.draw_textured_shape(&triangle(2), texture(7, "second"), Unit::Px, origin(), None, None);
    assert_eq!(renderer.command_count(), 1);
    assert_eq!(rendering.bind_group(7), Some(&"first".to_string()));
}

#[test]
fn a_mask_texture_sets_the_mask_flag() {
    let mut rendering: Rendering<String> = Rendering::new();
    let mut renderer = rendering.new_frame();
    let mask = TextureRef { id: 3, is_mask: true, bind_group: "mask".to_string() };
    renderer.draw_textured_shape(&triangle(1), mask, Unit::Px, origin(), None, None);
    let command = rendering.commands()[0];
    assert_eq!(command.constants.flags, FLAG_TEXTURED | FLAG_MASKED);
}

#[test]
fn a_different_texture_starts_a_new_command() {
    let mut rendering: Rendering<String> = Rendering::new();
    let mut renderer = rendering.new_frame();
    renderer.draw_textured_shape(&triangle(1), texture(1, "a"), Unit::Px, origin(), None, None);
    renderer.draw_textured_shape(&triangle(1), texture(2, "b"), Unit::Px, origin(), None, None);
    renderer.draw_shape(&triangle(1), Unit::Px, origin(), None, None);
    assert_eq!(renderer.command_count(), 3);
    let commands = rendering.commands();
    assert_eq!(commands[0].texture, Some(1));
    assert_eq!(commands[1].texture, Some(2));
    assert_eq!(commands[2].texture, None);
    assert_eq!(commands[2].constants.flags, 0);
}

#[test]
fn glyphs_batch_only_with_the_same_texture() {
    let mut rendering: Rendering<String> = Rendering::new();
    let mut renderer = rendering.new_frame();
    let source = URect { origin: UPoint { x: 0, y: 0 }, size: USize { width: 8, height: 8 } };
    let first = TextureBlit::new(
        source,
        Rect { origin: Point { x: 0, y: 0 }, size: Size { width: 8, height: 8 } },
        WHITE,
    );
    let second = TextureBlit::new(
        source,
        Rect { origin: Point { x: 8, y: 0 }, size: Size { width: 8, height: 8 } },
        WHITE,
    );
    let third = TextureBlit::new(
        source,
        Rect { origin: Point { x: 16, y: 0 }, size: Size { width: 8, height: 8 } },
        WHITE,
    );
    let translation = Point { x: 2, y: 2 };
    renderer.draw_glyph(&first, texture(1, "atlas-a"), translation, None, None);
    renderer.draw_glyph(&second, texture(1, "atlas-a"), translation, None, None);
    renderer.draw_glyph(&third, texture(2, "atlas-b"), translation, None, None);
    assert_eq!(renderer.command_count(), 2);
    assert_eq!(renderer.triangle_count(), 6);
    // Corners along x = 8 and x = 16 sample different texels, so none is shared.
    assert_eq!(renderer.vertex_count(), 12);
    let commands = rendering.commands();
    assert_eq!(commands[0].texture, Some(1));
    assert_eq!((commands[0].start, commands[0].end), (0, 12));
    assert_eq!(commands[0].constants.flags, FLAG_TEXTURED | FLAG_TRANSLATE);
    assert_eq!(commands[1].texture, Some(2));
    assert_eq!((commands[1].start, commands[1].end), (12, 18));
    assert_eq!(rendering.bind_group(2), Some(&"atlas-b".to_string()));
}

#[test]
fn texture_blit_corners() {
    let blit = TextureBlit::new(
        URect { origin: UPoint { x: 4, y: 5 }, size: USize { width: 10, height: 20 } },
        Rect { origin: Point { x: 100, y: 50 }, size: Size { width: -30, height: 40 } },
        7,
    );
    let corners = blit.vertices();
    assert_eq!(corners[0].location, Point { x: 70, y: 50 });
    assert_eq!(corners[0].texture, UPoint { x: 4, y: 5 });
    assert_eq!(corners[1].location, Point { x: 100, y: 50 });
    assert_eq!(corners[1].texture, UPoint { x: 14, y: 5 });
    assert_eq!(corners[2].location, Point { x: 70, y: 90 });
    assert_eq!(corners[2].texture, UPoint { x: 4, y: 25 });
    assert_eq!(corners[3].location, Point { x: 100, y: 90 });
    assert_eq!(corners[3].texture, UPoint { x: 14, y: 25 });
    assert!(corners.iter().all(|v| v.color == 7));
    assert_eq!(texture_blit_indices(), vec![1, 0, 2, 1, 2, 3]);
}

#[test]
fn draw_texture_draws_a_white_quad() {
    let mut rendering: Rendering<String> = Rendering::new();
    let mut renderer = rendering.new_frame();
    renderer.draw_texture(
        texture(9, "image"),
        URect { origin: UPoint { x: 0, y: 0 }, size: USize { width: 16, height: 16 } },
        Rect { origin: Point { x: 10, y: 10 }, size: Size { width: 32, height: 32 } },
        Unit::Px,
    );
    assert_eq!(renderer.vertex_count(), 4);
    assert_eq!(renderer.triangle_count(), 2);
    assert_eq!(rendering.indices(), &[1, 0, 2, 1, 2, 3]);
    assert!(rendering.vertices().iter().all(|v| v.color == WHITE));
    let command = rendering.commands()[0];
    assert_eq!(command.constants.flags, FLAG_TEXTURED);
    assert_eq!(command.texture, Some(9));
}

#[test]
fn can_draw_rejects_an_index_out_of_range() {
    let mut rendering: Rendering<String> = Rendering::new();
    let renderer = rendering.new_frame();
    let shape = triangle(1);
    assert!(!renderer.can_draw(&shape.vertices, &[0, 1, 3]));
    assert!(renderer.can_draw(&shape.vertices, &[0, 1, 2]));
}

#[test]
fn can_draw_rejects_more_vertices_than_u16_indices_reach() {
    let mut rendering: Rendering<String> = Rendering::new();
    let mut renderer = rendering.new_frame();
    let many: Vec<Vertex> = (0..65536).map(|i| vertex(i, 0, 0)).collect();
    assert!(renderer.can_draw(&many, &[]));
    let shape = Shape { vertices: many, indices: vec![] };
    renderer.draw_shape(&shape, Unit::Px, origin(), None, None);
    assert_eq!(renderer.vertex_count(), 65536);
    // Stored vertices still fit; one more does not.
    assert!(renderer.can_draw(&[vertex(5, 0, 0)], &[0]));
    assert!(!renderer.can_draw(&[vertex(-1, 0, 0)], &[0]));
    // A vertex repeated within the shape counts once.
    assert!(!renderer.can_draw(&[vertex(-1, 0, 0), vertex(-1, 0, 0)], &[0]));
}

#[test]
fn render_binds_each_texture_again_after_the_default() {
    let mut rendering: Rendering<String> = Rendering::new();
    {
        let mut renderer = rendering.new_frame();
        renderer.draw_textured_shape(&triangle(1), texture(1, "a"), Unit::Px, origin(), None, None);
        renderer.draw_shape(&triangle(1), Unit::Px, origin(), None, None);
        renderer.draw_textured_shape(&triangle(2), texture(1, "a"), Unit::Px, origin(), None, None);
        renderer.draw_shape(&triangle(2), Unit::Px, Point { x: 1, y: 0 }, None, None);
    }
    let clip = UPoint { x: 0, y: 0 };
    assert!(rendering.translations_fit(Point { x: 0, y: 0 }));
    let steps = rendering.render(true, clip);
    let draws = steps.iter().filter(|step| matches!(step, RenderStep::DrawIndexed { .. })).count();
    assert_eq!(draws, 4);
    let kinds: Vec<String> = steps
        .iter()
        .map(|step| match step {
            RenderStep::SetVertexBuffer => "vertex".to_string(),
            RenderStep::SetIndexBuffer => "index".to_string(),
            RenderStep::BindTexture(t) => format!("bind {t}"),
            RenderStep::BindDefaultTexture => "default".to_string(),
            RenderStep::SetPushConstants(_) => "constants".to_string(),
            RenderStep::DrawIndexed { start, end } => format!("draw {start}..{end}"),
        })
        .collect();
    assert_eq!(
        kinds,
        vec![
            "vertex", "index", "bind 1", "constants", "draw 0..3", "default", "constants",
            "draw 3..6", "bind 1", "constants", "draw 6..9", "constants", "draw 9..12",
        ]
    );
}

#[test]
fn render_translates_by_the_clip_origin() {
    let mut rendering: Rendering<String> = Rendering::new();
    {
        let mut renderer = rendering.new_frame();
        renderer.draw_shape(&triangle(1), Unit::Px, origin(), None, None);
    }
    let steps = rendering.render(false, UPoint { x: 5, y: 6 });
    assert_eq!(steps.len(), 4);
    match steps[2] {
        RenderStep::SetPushConstants(constants) => {
            assert_eq!(constants.translation, Point { x: 5, y: 6 });
            assert_eq!(constants.flags, FLAG_TRANSLATE);
        },
        _ => panic!("expected push constants"),
    }
    let steps = rendering.render(false, UPoint { x: 0, y: 0 });
    match steps[2] {
        RenderStep::SetPushConstants(constants) => assert_eq!(constants.flags, 0),
        _ => panic!("expected push constants"),
    }
}

#[test]
fn translations_fit_detects_overflow() {
    let mut rendering: Rendering<String> = Rendering::new();
    {
        let mut renderer = rendering.new_frame();
        renderer.draw_shape(&triangle(1), Unit::Px, Point { x: i32::MAX, y: 0 }, None, None);
    }
    assert!(rendering.translations_fit(Point { x: 0, y: 100 }));
    assert!(!rendering.translations_fit(Point { x: 1, y: 0 }));
}

#[test]
fn prepared_buffers_hold_the_frame() {
    let mut rendering: Rendering<String> = Rendering::new();
    {
        let mut renderer = rendering.new_frame();
        renderer.draw_shape(&triangle(1), Unit::Px, origin(), None, None);
    }
    let (vertices, indices) = rendering.prepared_buffers().expect("geometry was drawn");
    assert_eq!(vertices.len(), 3);
    assert_eq!(indices, &[0, 1, 2]);
}

#[test]
fn float_equality_on_bit_patterns() {
    let one = 1.0f32.to_bits();
    assert!(f32_bits_equal(one, one));
    assert!(f32_bits_equal(0.0f32.to_bits(), (-0.0f32).to_bits()));
    assert!(!f32_bits_equal(f32::NAN.to_bits(), f32::NAN.to_bits()));
    assert!(f32_bits_equal(f32::INFINITY.to_bits(), f32::INFINITY.to_bits()));
    assert!(!f32_bits_equal(one, 2.0f32.to_bits()));
    assert_eq!(ONE_F32_BITS, one);
}

#[test]
fn push_constants_for_a_draw() {
    let constants = PushConstants::for_draw(
        Unit::Lp.flags(),
        true,
        true,
        None,
        None,
        Point { x: 0, y: -1 },
    );
    assert_eq!(constants.flags, FLAG_DIPS | FLAG_TEXTURED | FLAG_MASKED | FLAG_TRANSLATE);
    assert_eq!(constants.scale_bits, ONE_F32_BITS);
    assert_eq!(constants.rotation_bits, 0);
    assert!(constants.same_as(&constants));
    assert_eq!(Unit::Px.flags(), 0);
    assert_eq!(Unit::UPx.flags(), 0);
}

#[test]
fn default_frame_is_empty() {
    let rendering: Rendering<u8> = Rendering::default();
    assert!(rendering.vertices().is_empty());
    assert!(rendering.indices().is_empty());
    assert!(rendering.commands().is_empty());
    assert!(rendering.render(true, UPoint { x: 0, y: 0 }).is_empty());
}

#[test]
fn a_frame_without_indices_renders_nothing() {
    let mut rendering: Rendering<String> = Rendering::new();
    {
        let mut renderer = rendering.new_frame();
        let empty = Shape { vertices: vec![], indices: vec![] };
        renderer.draw_shape(&empty, Unit::Px, origin(), None, None);
        // A command is recorded, but a frame without indices makes no draw call.
        assert_eq!(renderer.command_count(), 0);
        assert_eq!(renderer.data.commands().len(), 1);
    }
    assert!(rendering.render(true, UPoint { x: 0, y: 0 }).is_empty());
    assert!(rendering.prepared_buffers().is_none());
}

#[test]
fn the_same_draws_give_the_same_frame() {
    let mut first: Rendering<String> = Rendering::new();
    let mut second: Rendering<String> = Rendering::new();
    {
        let mut renderer = second.new_frame();
        renderer.draw_shape(&triangle(9), Unit::Px, origin(), None, None);
    }
    for rendering in [&mut first, &mut second] {
        let mut renderer = rendering.new_frame();
        renderer.draw_textured_shape(&triangle(1), texture(4, "t"), Unit::Px, origin(), None, None);
        renderer.draw_shape(&triangle(2), Unit::Lp, Point { x: 1, y: 1 }, None, None);
    }
    assert_eq!(first.vertices(), second.vertices());
    assert_eq!(first.indices(), second.indices());
    assert_eq!(first.commands().len(), second.commands().len());
    for (a, b) in first.commands().iter().zip(second.commands()) {
        assert_eq!((a.start, a.end, a.texture), (b.start, b.end, b.texture));
        assert!(a.constants.same_as(&b.constants));
    }
}

#[test]
fn command_count_is_the_number_of_draw_calls() {
    let mut rendering: Rendering<String> = Rendering::new();
    let count = {
        let mut renderer = rendering.new_frame();
        renderer.draw_shape(&triangle(1), Unit::Px, origin(), None, None);
        renderer.draw_textured_shape(&triangle(1), texture(3, "t"), Unit::Px, origin(), None, None);
        renderer.command_count()
    };
    let steps = rendering.render(false, UPoint { x: 0, y: 0 });
    let draws = steps.iter().filter(|step| matches!(step, RenderStep::DrawIndexed { .. })).count();
    assert_eq!(count, 2);
    assert_eq!(draws, count);
}

#[test]
fn an_empty_frame_ignores_the_clip() {
    let mut rendering: Rendering<String> = Rendering::new();
    {
        let mut renderer = rendering.new_frame();
        renderer.draw_shape(&Shape { vertices: vec![], indices: vec![] }, Unit::Px, Point { x: i32::MAX, y: 0 }, None, None);
    }
    assert!(rendering.render(true, UPoint { x: u32::MAX, y: u32::MAX }).is_empty());
}
