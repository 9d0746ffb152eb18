use vsg::mailbox::Mailbox;
use vsg::messages::{abs_bits, Color, Command, Coordinates, Shape};
use vsg::render_loop::begin_frame;
use vsg::scene::{RenderRequest, SceneState, UploadOutcome};

fn bits(v: f32) -> u32 {
    v.to_bits()
}

fn black() -> Color {
    Color { r: bits(0.0), g: bits(0.0), b: bits(0.0), a: bits(1.0) }
}

fn circle() -> Shape {
    Shape::Circle { radius: bits(0.2), ctr: Coordinates { x: bits(0.7), y: bits(0.7) } }
}

#[test]
fn mailbox_coalesces() {
    let mut mb = Mailbox::new();
    let c1 = Command::Draw(circle());
    let c2 = Command::SetBackground(black());
    let c3 = Command::LoadTexture(1, vec![1, 2, 3]);
    mb.push(c1);
    mb.push(c2);
    mb.push(c3.clone());
    assert!(mb.is_pending());
    assert_eq!(mb.drain(), Some(c3));
    assert_eq!(mb.drain(), None);
    assert_eq!(mb.drain(), None);
    assert!(!mb.is_pending());
}

#[test]
fn interleaved_pushes_and_drains_see_whole_commands() {
    let mut mb = Mailbox::new();
    for i in 0..50u32 {
        let c = Command::LoadTexture(i, vec![i as u8; (i as usize) + 1]);
        mb.push(c.clone());
        if i % 3 == 0 {
            assert_eq!(mb.drain(), Some(c));
            assert_eq!(mb.drain(), None);
        }
    }
    assert_eq!(mb.drain(), Some(Command::LoadTexture(49, vec![49; 50])));
}

#[test]
fn scene_transitions() {
    let mut scene = SceneState::new();
    assert_eq!(scene.background(), black());
    assert_eq!(scene.shape(), None);

    let mut mb = Mailbox::new();
    mb.push(Command::Draw(circle()));
    let req = begin_frame(&mut mb, &mut scene);
    assert!(matches!(req, RenderRequest::BuildGeometry(s) if s == circle()));
    assert_eq!(scene.background(), black());
    assert_eq!(scene.shape(), Some(circle()));

    let color = Color { r: bits(0.1), g: bits(0.2), b: bits(0.3), a: bits(1.0) };
    mb.push(Command::SetBackground(color));
    let req = begin_frame(&mut mb, &mut scene);
    assert!(matches!(req, RenderRequest::Redraw));
    assert_eq!(scene.background(), color);
    assert_eq!(scene.shape(), Some(circle()));

    let req = begin_frame(&mut mb, &mut scene);
    assert!(matches!(req, RenderRequest::Redraw));
    assert_eq!(scene.background(), color);
    assert_eq!(scene.shape(), Some(circle()));
}

#[test]
fn failed_texture_keeps_prior_image() {
    let mut scene = SceneState::new();
    let req = scene.apply(Command::LoadTexture(0, vec![1, 2, 3]));
    assert!(matches!(req, RenderRequest::UploadTexture(0, ref b) if *b == vec![1, 2, 3]));
    assert_eq!(scene.texture(0), None);
    assert_eq!(scene.finish_upload(0, Some(11)), UploadOutcome::Bound { replaced: None });
    assert_eq!(scene.texture(0), Some(11));

    let req = scene.apply(Command::LoadTexture(0, vec![0xde, 0xad]));
    assert!(matches!(req, RenderRequest::UploadTexture(0, _)));
    assert_eq!(scene.finish_upload(0, None), UploadOutcome::Failed);
    assert_eq!(scene.texture(0), Some(11));
}

#[test]
fn texture_slots_are_independent() {
    let mut scene = SceneState::new();
    scene.finish_upload(0, Some(1));
    scene.finish_upload(5, Some(2));
    assert_eq!(scene.finish_upload(0, Some(3)), UploadOutcome::Bound { replaced: Some(1) });
    assert_eq!(scene.texture(0), Some(3));
    assert_eq!(scene.texture(5), Some(2));
    assert_eq!(scene.texture(7), None);
}

#[test]
fn extents_are_normalized() {
    assert_eq!(abs_bits(bits(-0.5)), bits(0.5));
    assert_eq!(abs_bits(bits(0.5)), bits(0.5));
    assert_eq!(abs_bits(bits(-0.0)), bits(0.0));
    let cross = Shape::Cross {
        size: bits(-0.4),
        line_width: bits(-0.01),
        ctr: Coordinates { x: bits(-0.3), y: bits(0.3) },
    };
    assert_eq!(
        cross.normalized(),
        Shape::Cross {
            size: bits(0.4),
            line_width: bits(0.01),
            ctr: Coordinates { x: bits(-0.3), y: bits(0.3) },
        }
    );
    let square = Shape::Square { size: bits(-1.0), ctr: Coordinates { x: 0, y: 0 } };
    assert_eq!(square.normalized(), Shape::Square { size: bits(1.0), ctr: Coordinates { x: 0, y: 0 } });
}
