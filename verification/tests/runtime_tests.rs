use pong::display::{Canvas, Color, DrawOp, Rect, ScreenFill, VoidDisplay};
use pong::display::Display;
use pong::display::{circle_disk_points, circle_outline_points};
use pong::game::{BoundingBox, BoxCollider, Collider, Entity, Event, Game, Scene, VoidCollider};
use pong::game::should_quit;
use pong::input::{Input, InputMap, Key, VoidInput};
use pong::pong::{Background, Ball, Paddle, Player, PongEntity, initial_scene};

fn pressed(keys: &[Key]) -> InputMap {
    let mut m = InputMap::new();
    for k in keys {
        m.press(*k);
    }
    m
}

fn game_with(scene: Scene<PongEntity>) -> Game<PongEntity> {
    let mut g: Game<PongEntity> = Game::new();
    g.set_scene(scene);
    assert!(g.ready());
    g
}

#[test]
fn intersecting_boxes_are_reported() {
    let a = BoundingBox::new(0, 0, 10, 10);
    let b = BoundingBox::new(5, 5, 10, 10);
    assert!(a.has_intersection(&b));
    assert!(b.has_intersection(&a));
}

#[test]
fn distant_boxes_do_not_intersect() {
    let a = BoundingBox::new(0, 0, 10, 10);
    let b = BoundingBox::new(20, 20, 5, 5);
    assert!(!a.has_intersection(&b));
    assert!(!b.has_intersection(&a));
}

#[test]
fn touching_edges_do_not_intersect() {
    let a = BoundingBox::new(0, 0, 10, 10);
    let b = BoundingBox::new(10, 0, 10, 10);
    assert!(!a.has_intersection(&b));
}

#[test]
fn box_collider_clamps_zero_sizes() {
    let c = BoxCollider { x: 5, y: 6, width: 0, height: 7 };
    let b = c.collider().unwrap();
    assert_eq!(b, BoundingBox { x: 5, y: 6, width: 1, height: 7 });
}

#[test]
fn void_collider_has_no_box() {
    assert!(VoidCollider {}.collider().is_none());
}

#[test]
fn void_display_draws_nothing() {
    let mut canvas = Canvas::new();
    VoidDisplay {}.display(&mut canvas);
    assert!(canvas.take_ops().is_empty());
}

#[test]
fn void_input_changes_nothing() {
    let mut v = VoidInput {};
    v.input(&pressed(&[Key::W, Key::Down]));
}

#[test]
fn screen_fill_sets_color_and_clears() {
    let mut canvas = Canvas::new();
    let yellow = Color::rgb(255, 255, 0);
    ScreenFill { color: yellow }.display(&mut canvas);
    assert_eq!(canvas.take_ops(), vec![DrawOp::SetColor(yellow), DrawOp::Clear]);
}

#[test]
fn rect_fills_its_area() {
    let mut canvas = Canvas::new();
    let blue = Color::rgb(0, 0, 255);
    Rect { x: 3, y: 4, width: 5, height: 6, color: blue }.display(&mut canvas);
    assert_eq!(
        canvas.take_ops(),
        vec![DrawOp::SetColor(blue), DrawOp::FillRect(3, 4, 5, 6)]
    );
}

#[test]
fn outline_radius_one_plots_center_images() {
    let pts = circle_outline_points(5, 7, 1);
    assert_eq!(pts.len(), 8);
    for p in &pts {
        assert_eq!(*p, (5, 7));
    }
}

#[test]
fn outline_radius_two_exact() {
    let pts = circle_outline_points(0, 0, 2);
    assert_eq!(pts.len(), 16);
    for expect in [
        (1, 0),
        (0, 1),
        (-1, 0),
        (0, -1),
        (1, 1),
        (1, -1),
        (-1, 1),
        (-1, -1),
    ] {
        assert!(pts.contains(&expect));
    }
}

#[test]
fn outline_point_set_is_eightfold_symmetric() {
    for radius in 1..12u32 {
        let pts = circle_outline_points(0, 0, radius);
        for (a, b) in &pts {
            assert!(pts.contains(&(-a, *b)));
            assert!(pts.contains(&(*a, -b)));
            assert!(pts.contains(&(*b, *a)));
        }
    }
}

#[test]
fn outline_points_off_axes_and_diagonals_are_plotted_once() {
    for radius in 2..10u32 {
        let pts = circle_outline_points(0, 0, radius);
        for (a, b) in &pts {
            if *a != 0 && *b != 0 && a.abs() != b.abs() {
                let count = pts.iter().filter(|p| *p == &(*a, *b)).count();
                assert_eq!(count, 1);
            }
        }
    }
}

#[test]
fn disk_radius_one_exact() {
    let pts = circle_disk_points(0, 0, 1);
    assert_eq!(pts, vec![(1, 0), (0, 1), (0, 0), (0, -1), (-1, 0)]);
}

#[test]
fn disk_radius_zero_plots_the_center() {
    let pts = circle_disk_points(5, 7, 0);
    assert_eq!(pts, vec![(5, 7)]);
}

#[test]
fn disk_is_exactly_the_points_within_the_radius() {
    let r: i32 = 6;
    let pts = circle_disk_points(0, 0, r as u32);
    for (a, b) in &pts {
        assert!(a * a + b * b <= r * r);
    }
    for a in -r..=r {
        for b in -r..=r {
            if a * a + b * b <= r * r {
                assert!(pts.contains(&(a, b)));
            }
        }
    }
    assert!(pts.contains(&(6, 0)));
    assert!(pts.contains(&(-6, 0)));
    assert!(pts.contains(&(0, -6)));
    assert!(!pts.contains(&(6, 6)));
}

#[test]
fn background_capabilities_default_to_noops() {
    let mut e = PongEntity::Background(Background {});
    let before = e;
    e.input(&pressed(&[Key::W, Key::S, Key::Up, Key::Down]));
    assert_eq!(e, before);
    let scene: Scene<PongEntity> = Scene::new();
    e.update(&scene);
    assert_eq!(e, before);
    assert!(e.collider().is_none());
}

#[test]
fn ball_ignores_input_and_has_no_collider() {
    let mut e = PongEntity::Ball(Ball { x: 1, y: 2, direction: (1, 1) });
    let before = e;
    e.input(&pressed(&[Key::W, Key::S, Key::Up, Key::Down]));
    assert_eq!(e, before);
    assert!(e.collider().is_none());
}

#[test]
fn paddle_ignores_updates() {
    let mut e = PongEntity::Paddle(Paddle { pos: 300, player: Player::Left });
    let before = e;
    let scene = initial_scene();
    e.update(&scene);
    assert_eq!(e, before);
}

#[test]
fn snapshot_is_value_independent() {
    let mut live = initial_scene();
    let snap = live.snapshot();
    live.entities[1] = PongEntity::Paddle(Paddle { pos: 999, player: Player::Left });
    assert_eq!(
        snap.entities[1],
        PongEntity::Paddle(Paddle { pos: 300, player: Player::Left })
    );
}

#[test]
fn update_phase_is_deterministic() {
    let mut g1 = game_with(initial_scene());
    let mut g2 = game_with(initial_scene());
    g1.handle_update();
    g2.handle_update();
    assert_eq!(g1.entities(), g2.entities());
    g1.handle_update();
    g2.handle_update();
    assert_eq!(g1.entities(), g2.entities());
}

#[test]
fn quit_events_end_the_run() {
    assert!(!should_quit(&vec![]));
    assert!(!should_quit(&vec![Event::KeyDown(Key::W), Event::KeyDown(Key::Down)]));
    assert!(should_quit(&vec![Event::KeyDown(Key::W), Event::Quit]));
    assert!(should_quit(&vec![Event::KeyDown(Key::Escape)]));
}

#[test]
fn quit_leaves_the_scene_untouched() {
    let mut g = game_with(initial_scene());
    let before = g.entities();
    let quit = g.handle_input(&vec![Event::Quit], &pressed(&[Key::Down]));
    assert!(quit);
    assert_eq!(g.entities(), before);
}

#[test]
fn down_key_moves_only_the_right_paddle() {
    let mut g = game_with(initial_scene());
    let quit = g.handle_input(&vec![], &pressed(&[Key::Down]));
    assert!(!quit);
    let after = g.entities();
    assert_eq!(after[0], PongEntity::Background(Background {}));
    assert_eq!(after[1], PongEntity::Paddle(Paddle { pos: 300, player: Player::Left }));
    assert_eq!(after[2], PongEntity::Paddle(Paddle { pos: 310, player: Player::Right }));
    assert_eq!(after[3], PongEntity::Ball(Ball { x: 640, y: 360, direction: (1, 1) }));
}

#[test]
fn w_key_moves_only_the_left_paddle_up() {
    let mut g = game_with(initial_scene());
    g.handle_input(&vec![], &pressed(&[Key::W]));
    let after = g.entities();
    assert_eq!(after[1], PongEntity::Paddle(Paddle { pos: 290, player: Player::Left }));
    assert_eq!(after[2], PongEntity::Paddle(Paddle { pos: 300, player: Player::Right }));
}

#[test]
fn opposed_keys_cancel() {
    let mut p = Paddle { pos: 300, player: Player::Left };
    p.input(&pressed(&[Key::W, Key::S]));
    assert_eq!(p.pos, 300);
}

#[test]
fn ball_moves_by_speed_with_no_collider_in_range() {
    let mut g = game_with(initial_scene());
    g.handle_update();
    let after = g.entities();
    assert_eq!(after[3], PongEntity::Ball(Ball { x: 650, y: 370, direction: (1, 1) }));
}

#[test]
fn ball_clamps_and_bounces_at_the_left_wall() {
    let mut scene: Scene<PongEntity> = Scene::new();
    scene.add(PongEntity::Ball(Ball { x: 5, y: 360, direction: (-1, 1) }));
    let mut g = game_with(scene);
    g.handle_update();
    let after = g.entities();
    assert_eq!(after[0], PongEntity::Ball(Ball { x: 10, y: 370, direction: (1, 1) }));
}

#[test]
fn ball_flips_horizontally_on_a_paddle_hit() {
    let mut scene: Scene<PongEntity> = Scene::new();
    scene.add(PongEntity::Paddle(Paddle { pos: 300, player: Player::Left }));
    scene.add(PongEntity::Ball(Ball { x: 55, y: 350, direction: (1, 0) }));
    let mut g = game_with(scene);
    g.handle_update();
    let after = g.entities();
    assert_eq!(after[1], PongEntity::Ball(Ball { x: 65, y: 350, direction: (-1, 0) }));
}

#[test]
fn draw_phase_records_clear_entities_and_present() {
    let g = game_with(initial_scene());
    let mut canvas = Canvas::new();
    g.handle_draw(&mut canvas);
    let ops = canvas.take_ops();
    assert_eq!(ops[0], DrawOp::SetColor(Color::rgb(0, 0, 0)));
    assert_eq!(ops[1], DrawOp::Clear);
    assert_eq!(ops[2], DrawOp::SetColor(Color::rgb(255, 255, 0)));
    assert_eq!(ops[3], DrawOp::Clear);
    assert_eq!(ops[4], DrawOp::SetColor(Color::rgb(0, 0, 255)));
    assert_eq!(ops[5], DrawOp::FillRect(50, 300, 20, 150));
    assert_eq!(ops[6], DrawOp::SetColor(Color::rgb(255, 0, 0)));
    assert_eq!(ops[7], DrawOp::FillRect(1210, 300, 20, 150));
    assert_eq!(ops[8], DrawOp::SetColor(Color::rgb(0, 255, 0)));
    assert!(matches!(ops[9], DrawOp::DrawPoint(_, _)));
    assert_eq!(*ops.last().unwrap(), DrawOp::Present);
}

#[test]
fn input_map_reports_held_keys() {
    let m = pressed(&[Key::Up, Key::S]);
    assert!(m.is_scancode_pressed(Key::Up));
    assert!(m.is_scancode_pressed(Key::S));
    assert!(!m.is_scancode_pressed(Key::W));
    assert!(!m.is_scancode_pressed(Key::Escape));
}

#[test]
fn scene_keeps_insertion_order() {
    let s = initial_scene();
    assert_eq!(s.entities.len(), 4);
    assert!(matches!(s.entities[0], PongEntity::Background(_)));
    assert!(matches!(s.entities[1], PongEntity::Paddle(_)));
    assert!(matches!(s.entities[2], PongEntity::Paddle(_)));
    assert!(matches!(s.entities[3], PongEntity::Ball(_)));
}

#[test]
fn game_without_scene_is_not_ready() {
    let g: Game<PongEntity> = Game::new();
    assert!(!g.is_scene_bound());
    assert!(!g.ready());
    assert!(g.entities().is_empty());
}

#[test]
fn binding_a_scene_makes_the_game_ready() {
    let mut g: Game<PongEntity> = Game::new();
    g.set_scene(initial_scene());
    assert!(g.is_scene_bound());
    assert!(g.ready());
}
