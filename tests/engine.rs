use bit_world::buffer::PixelBuffer;
use bit_world::color::Rgba;
use bit_world::input::{InputState, Key};
use bit_world::level::{parse_level, slot_for, DEFAULT_MAP};
use bit_world::player::{Body, Motion, Player, JUMP_VELOCITY, MIN_X, SPRINT_JUMP_VELOCITY};
use bit_world::sprite::Sprite;
use bit_world::tile::{tile_anchor, tile_position, Camera, Tile, TILES_PER_ROW, TILE_SIZE};
use bit_world::world::{background_color, default_palette, World};

const RED: Rgba = Rgba { r: 255, g: 0, b: 0, a: 255 };
const BLUE: Rgba = Rgba { r: 0, g: 0, b: 255, a: 255 };
const BLACK: Rgba = Rgba { r: 0, g: 0, b: 0, a: 255 };

fn chars(s: &str) -> Vec<char> {
    s.chars().collect()
}

#[test]
fn new_buffer_is_zeroed() {
    let buf = PixelBuffer::new(4, 3);
    assert_eq!(buf.width(), 4);
    assert_eq!(buf.height(), 3);
    assert_eq!(buf.as_bytes().len(), 48);
    assert!(buf.as_bytes().iter().all(|b| *b == 0));
}

#[test]
fn set_then_get_returns_written_color() {
    let mut buf = PixelBuffer::new(5, 4);
    buf.set_pixel(3, 2, RED);
    assert_eq!(buf.get_pixel(3, 2), Some(RED));
    assert_eq!(buf.get_pixel(2, 2), Some(Rgba::new(0, 0, 0, 0)));
    let i = (2 * 5 + 3) * 4;
    assert_eq!(&buf.as_bytes()[i..i + 4], &[255, 0, 0, 255]);
    buf.set_pixel(0, 0, BLUE);
    buf.set_pixel(4, 3, BLUE);
    assert_eq!(buf.get_pixel(0, 0), Some(BLUE));
    assert_eq!(buf.get_pixel(4, 3), Some(BLUE));
    assert_eq!(&buf.as_bytes()[76..80], &[0, 0, 255, 255]);
}

#[test]
fn set_outside_leaves_buffer_unchanged() {
    let mut buf = PixelBuffer::new(5, 4);
    buf.clear(BLUE);
    let before = buf.as_bytes().to_vec();
    for (x, y) in [(-1, 0), (0, -1), (5, 0), (0, 4), (5, 4), (i64::MIN, i64::MAX), (i64::MAX, 0)] {
        buf.set_pixel(x, y, RED);
        assert_eq!(buf.as_bytes(), &before[..]);
    }
    assert_eq!(buf.get_pixel(5, 0), None);
    assert_eq!(buf.get_pixel(-1, 0), None);
}

#[test]
fn clear_fills_every_pixel() {
    let mut buf = PixelBuffer::new(3, 2);
    buf.clear(Rgba::new(1, 2, 3, 4));
    assert_eq!(buf.as_bytes(), &[1, 2, 3, 4].repeat(6)[..]);
}

#[test]
fn sprite_new_checks_cell_count() {
    assert!(Sprite::new(2, 2, vec![RED; 3]).is_none());
    let s = Sprite::new(2, 3, vec![RED; 6]).unwrap();
    assert_eq!((s.width(), s.height()), (2, 3));
}

#[test]
fn uniform_sprite_at_origin_covers_its_rectangle() {
    let mut buf = PixelBuffer::new(8, 6);
    buf.clear(BLACK);
    let sprite = Sprite::filled(3, 2, RED);
    sprite.draw(&mut buf, 0, 0);
    let mut red = 0;
    for y in 0..6 {
        for x in 0..8 {
            let expected = if x < 3 && y < 2 { RED } else { BLACK };
            assert_eq!(buf.get_pixel(x, y), Some(expected));
            if expected == RED {
                red += 1;
            }
        }
    }
    assert_eq!(red, 6);
}

#[test]
fn sprite_rows_wrap_by_width() {
    let cells = vec![RED, BLUE, BLUE, RED];
    let sprite = Sprite::new(2, 2, cells).unwrap();
    let mut buf = PixelBuffer::new(4, 4);
    buf.clear(BLACK);
    sprite.draw(&mut buf, 1, 1);
    assert_eq!(buf.get_pixel(1, 1), Some(RED));
    assert_eq!(buf.get_pixel(2, 1), Some(BLUE));
    assert_eq!(buf.get_pixel(1, 2), Some(BLUE));
    assert_eq!(buf.get_pixel(2, 2), Some(RED));
    assert_eq!(buf.get_pixel(3, 1), Some(BLACK));
    assert_eq!(buf.get_pixel(0, 2), Some(BLACK));
}

#[test]
fn sprite_partly_off_screen_is_clipped() {
    let cells = vec![RED, BLUE, BLUE, RED];
    let sprite = Sprite::new(2, 2, cells).unwrap();
    let mut buf = PixelBuffer::new(3, 3);
    buf.clear(BLACK);
    sprite.draw(&mut buf, -1, -1);
    assert_eq!(buf.get_pixel(0, 0), Some(RED));
    assert_eq!(buf.get_pixel(1, 0), Some(BLACK));
    assert_eq!(buf.get_pixel(0, 1), Some(BLACK));
    let mut buf2 = PixelBuffer::new(3, 3);
    buf2.clear(BLACK);
    sprite.draw(&mut buf2, 2, 0);
    // The right column falls past the edge and must not wrap onto the next row.
    assert_eq!(buf2.get_pixel(2, 0), Some(RED));
    assert_eq!(buf2.get_pixel(0, 1), Some(BLACK));
    assert_eq!(buf2.get_pixel(2, 1), Some(BLUE));
    let mut buf3 = PixelBuffer::new(3, 3);
    buf3.clear(BLACK);
    sprite.draw(&mut buf3, i64::MAX, i64::MIN);
    assert_eq!(buf3.as_bytes(), &[0, 0, 0, 255].repeat(9)[..]);
}

#[test]
fn tile_index_36_maps_to_row_2_column_4() {
    assert_eq!(TILES_PER_ROW, 16);
    assert_eq!(tile_position(36), (2, 4));
    let t = TILE_SIZE as i128;
    assert_eq!(tile_anchor(36, Camera::new(5, 7)), (4 * t - 5, 2 * t - 7));
    assert_eq!(tile_anchor(36, Camera::new(-3, 0)), (4 * t + 3, 2 * t));
    assert_eq!(tile_anchor(0, Camera::new(0, 0)), (0, 0));
}

#[test]
fn tile_draw_uses_grid_position_and_camera() {
    let tile = Tile { sprite: Sprite::filled(16, 16, RED), id: 1 };
    let mut buf = PixelBuffer::new(64, 48);
    buf.clear(BLACK);
    // Index 17 is row 1, column 1: world corner (16, 16).
    tile.draw(&mut buf, 17, Camera::new(4, 8));
    assert_eq!(buf.get_pixel(12, 8), Some(RED));
    assert_eq!(buf.get_pixel(27, 23), Some(RED));
    assert_eq!(buf.get_pixel(11, 8), Some(BLACK));
    assert_eq!(buf.get_pixel(28, 23), Some(BLACK));
    assert_eq!(buf.get_pixel(12, 24), Some(BLACK));
}

#[test]
fn jump_returns_to_ground_line() {
    let mut body = Body::new(15, 100);
    body.jump();
    assert_eq!(body.motion, Motion::Rising);
    assert_eq!(body.velocity, JUMP_VELOCITY);
    let mut ticks = 0;
    while body.motion != Motion::Grounded {
        body.tick();
        ticks += 1;
        assert!(ticks < 1000);
        if ticks == 10 {
            assert_eq!(body.y, 45);
            assert_eq!(body.motion, Motion::Falling);
        }
    }
    assert_eq!(ticks, 21);
    assert_eq!(body.y, 100);
    assert_eq!(body.velocity, 0);
    assert_eq!(body.x, 15);
}

#[test]
fn sprint_jump_is_higher_and_lands_exactly() {
    let mut body = Body::new(0, 7);
    body.sprinting = true;
    body.jump();
    assert_eq!(body.velocity, SPRINT_JUMP_VELOCITY);
    let mut top = body.y;
    let mut ticks = 0;
    while body.motion != Motion::Grounded {
        body.tick();
        top = top.min(body.y);
        ticks += 1;
        assert!(ticks < 1000);
    }
    assert_eq!(top, 7 - 78);
    assert_eq!((body.y, body.velocity), (7, 0));
}

#[test]
fn jump_in_the_air_does_nothing() {
    let mut body = Body::new(0, 50);
    body.jump();
    body.tick();
    let before = body;
    body.jump();
    assert_eq!(body, before);
}

#[test]
fn grounded_tick_changes_nothing() {
    let mut body = Body::new(3, 9);
    let before = body;
    body.tick();
    assert_eq!(body, before);
}

#[test]
fn move_left_at_zero_stays_at_zero() {
    let mut body = Body::new(0, 10);
    body.move_left();
    assert_eq!(body.x, MIN_X);
    assert_eq!(body.x, 0);
    body.sprinting = true;
    body.move_right();
    assert_eq!(body.x, 2);
    body.move_left();
    body.move_left();
    assert_eq!(body.x, 0);
    let mut edge = Body::new(1, 10);
    edge.sprinting = true;
    edge.move_left();
    assert_eq!(edge.x, 0);
}

#[test]
fn horizontal_steps_depend_on_sprint() {
    let mut body = Body::new(10, 0);
    body.move_right();
    assert_eq!(body.x, 11);
    body.move_left();
    assert_eq!(body.x, 10);
    body.sprinting = true;
    body.move_right();
    assert_eq!(body.x, 12);
    let mut far = Body::new(i64::MAX, 0);
    far.move_right();
    assert_eq!(far.x, i64::MAX);
}

#[test]
fn parse_level_skips_space_and_defaults_to_slot_zero() {
    assert_eq!(parse_level(&chars("12\n 3x\t0"), 3), vec![1, 2, 0, 0, 0]);
    assert_eq!(parse_level(&chars(""), 3), Vec::<usize>::new());
    assert_eq!(parse_level(&chars("9\u{a0}8"), 10), vec![9, 8]);
    assert_eq!(slot_for('7', 8), 7);
    assert_eq!(slot_for('7', 7), 0);
    assert_eq!(slot_for('a', 16), 0);
}

#[test]
fn default_map_has_fifteen_rows_of_sixteen() {
    let slots = parse_level(&chars(DEFAULT_MAP), 3);
    assert_eq!(slots.len(), 240);
    assert_eq!(&slots[0..3], &[1, 1, 0]);
    assert!(slots[16..208].iter().all(|s| *s == 0));
    assert!(slots[208..].iter().all(|s| *s == 1));
}

#[test]
fn default_palette_has_three_tiles() {
    let p = default_palette();
    assert_eq!(p.len(), 3);
    for (i, t) in p.iter().enumerate() {
        assert_eq!(t.id as usize, i);
        assert_eq!((t.sprite.width(), t.sprite.height()), (16, 16));
    }
}

fn sample_world() -> World {
    let mut world = World::new(default_palette());
    world.load_level(&chars("0120\n2100"));
    world.set_player(Player { body: Body::new(40, 20), sprite: Sprite::filled(2, 3, BLUE) });
    world
}

#[test]
fn world_draw_composes_tiles_then_player() {
    let world = sample_world();
    assert_eq!(world.slots(), &[0, 1, 2, 0, 2, 1, 0, 0]);
    let mut buf = PixelBuffer::new(80, 40);
    buf.set_pixel(70, 30, RED);
    world.draw(&mut buf, Camera::new(0, 0));
    let dirt = Rgba::new(128, 0, 0, 255);
    let grass = Rgba::new(0, 255, 0, 255);
    assert_eq!(buf.get_pixel(70, 30), Some(background_color()));
    assert_eq!(buf.get_pixel(16, 0), Some(dirt));
    assert_eq!(buf.get_pixel(47, 15), Some(grass));
    // Transparent tiles are copied as they are.
    assert_eq!(buf.get_pixel(0, 0), Some(Rgba::new(0, 0, 0, 0)));
    // A row holds sixteen tiles, so grid position 4 is column 4 of row 0.
    assert_eq!(buf.get_pixel(64, 0), Some(grass));
    assert_eq!(buf.get_pixel(40, 20), Some(BLUE));
    assert_eq!(buf.get_pixel(41, 22), Some(BLUE));
    assert_eq!(buf.get_pixel(42, 22), Some(background_color()));
}

#[test]
fn world_draw_twice_is_identical() {
    let world = sample_world();
    let mut buf = PixelBuffer::new(80, 40);
    world.draw(&mut buf, Camera::new(-3, 5));
    let first = buf.as_bytes().to_vec();
    world.draw(&mut buf, Camera::new(-3, 5));
    assert_eq!(buf.as_bytes(), &first[..]);
    let mut other = PixelBuffer::new(80, 40);
    other.clear(RED);
    world.draw(&mut other, Camera::new(-3, 5));
    assert_eq!(other.as_bytes(), &first[..]);
}

#[test]
fn world_camera_shifts_tiles() {
    let world = sample_world();
    let mut buf = PixelBuffer::new(80, 40);
    world.draw(&mut buf, Camera::new(10, 0));
    assert_eq!(buf.get_pixel(6, 0), Some(Rgba::new(128, 0, 0, 255)));
    assert_eq!(buf.get_pixel(5, 0), Some(Rgba::new(0, 0, 0, 0)));
}

#[test]
fn world_commands_move_the_player() {
    let mut world = sample_world();
    world.move_character_right();
    world.move_character_right();
    world.move_character_left();
    assert_eq!(world.player().as_ref().unwrap().body.x, 41);
    world.character_jump();
    world.update();
    let body = world.player().as_ref().unwrap().body;
    assert_eq!((body.y, body.velocity, body.motion), (10, 9, Motion::Rising));
    let mut empty = World::new(default_palette());
    empty.update();
    empty.move_character_left();
    assert!(empty.player().is_none());
}

#[test]
fn input_state_drives_a_tick() {
    let mut input = InputState::new();
    input.set(Key::MoveRight, true);
    input.set(Key::Jump, true);
    input.set(Key::Sprint, true);
    let mut world = sample_world();
    world.step(&input);
    let body = world.player().as_ref().unwrap().body;
    // The move and the jump use the sprint state from before this tick.
    assert_eq!(body.x, 41);
    assert_eq!(body.velocity, JUMP_VELOCITY - 1);
    assert_eq!(body.y, 20 - JUMP_VELOCITY);
    assert!(body.sprinting);
    input.set(Key::Jump, false);
    input.set(Key::MoveRight, false);
    world.step(&input);
    let body = world.player().as_ref().unwrap().body;
    assert_eq!(body.x, 41);
}

#[test]
fn scroll_keys_move_the_camera() {
    let mut input = InputState::new();
    input.set(Key::ScrollRight, true);
    input.set(Key::ScrollUp, true);
    let mut cam = Camera::new(0, 0);
    cam.scroll(&input);
    assert_eq!(cam, Camera::new(-1, 1));
    input.set(Key::ScrollRight, false);
    input.set(Key::ScrollLeft, true);
    input.set(Key::ScrollDown, true);
    input.set(Key::ScrollUp, false);
    cam.scroll(&input);
    assert_eq!(cam, Camera::new(0, 0));
    let mut edge = Camera::new(i64::MIN, i64::MAX);
    edge.pan(-1, 1);
    assert_eq!(edge, Camera::new(i64::MIN, i64::MAX));
}
