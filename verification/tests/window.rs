use pathtracer::color::{Col3, Col4};
use pathtracer::frame::write_frame;
use pathtracer::world::{World, BOX_SIZE, HEIGHT, WIDTH};

const BOX: [u8; 4] = [0x5e, 0x48, 0xe8, 0xff];
const BACKDROP: [u8; 4] = [0x48, 0xb2, 0xe8, 0xff];

#[test]
fn window_is_512_by_512_and_the_box_64() {
    assert_eq!((WIDTH, HEIGHT, BOX_SIZE), (512, 512, 64));
}

#[test]
fn box_sets_out_at_24_16() {
    assert_eq!(World::new().box_position(), (24, 16));
}

#[test]
fn box_moves_one_pixel_a_step() {
    let mut world = World::new();
    assert_eq!(world.box_velocity(), (1, 1));
    world.update();
    assert_eq!(world.box_position(), (25, 17));
    world.update();
    assert_eq!(world.box_position(), (26, 18));
}

#[test]
fn box_turns_round_at_the_far_edges() {
    let mut world = World::new();
    // x reaches 449 after 425 steps and turns; y reaches 449 after 433 steps
    for _ in 0..425 {
        world.update();
    }
    assert_eq!(world.box_position(), (449, 441));
    world.update();
    assert_eq!(world.box_position(), (448, 442));
    assert_eq!(world.box_velocity(), (-1, 1));
    for _ in 0..7 {
        world.update();
    }
    assert_eq!(world.box_position(), (441, 449));
    world.update();
    assert_eq!(world.box_position(), (440, 448));
}

#[test]
fn box_turns_round_at_the_near_edges() {
    let mut world = World::new();
    for _ in 0..(425 + 449) {
        world.update();
    }
    assert_eq!(world.box_position().0, 0);
    world.update();
    assert_eq!(world.box_position().0, 1);
    let mut seen_low = i16::MAX;
    let mut seen_high = i16::MIN;
    for _ in 0..5000 {
        world.update();
        let (x, y) = world.box_position();
        seen_low = seen_low.min(x).min(y);
        seen_high = seen_high.max(x).max(y);
    }
    assert_eq!((seen_low, seen_high), (0, 449));
}

#[test]
fn world_is_drawn_as_a_box_on_a_backdrop() {
    let world = World::new();
    let mut frame = vec![0u8; 512 * 512 * 4];
    world.draw(&mut frame);
    for y in 0..512usize {
        for x in 0..512usize {
            let inside = (24..88).contains(&x) && (16..80).contains(&y);
            let i = (y * 512 + x) * 4;
            assert_eq!(frame[i..i + 4], if inside { BOX } else { BACKDROP }, "pixel {x}, {y}");
        }
    }
}

#[test]
fn drawing_leaves_the_bytes_of_a_broken_pixel() {
    let world = World::new();
    let mut frame = vec![7u8; 11];
    world.draw(&mut frame);
    assert_eq!(frame, vec![0x48, 0xb2, 0xe8, 0xff, 0x48, 0xb2, 0xe8, 0xff, 7, 7, 7]);
    let mut none: Vec<u8> = vec![];
    world.draw(&mut none);
    assert_eq!(none, vec![]);
}

#[test]
fn image_is_written_opaque() {
    let image = vec![Col3::new(1, 2, 3), Col3::new(4, 5, 6)];
    let mut frame = vec![0u8; 8];
    write_frame(&image, &mut frame);
    assert_eq!(frame, vec![1, 2, 3, 255, 4, 5, 6, 255]);
    assert_eq!(Col4::opaque(Col3::new(9, 8, 7)), Col4 { r: 9, g: 8, b: 7, a: 255 });
}

#[test]
fn image_is_written_as_far_as_both_reach() {
    let image = vec![Col3::new(1, 2, 3), Col3::new(4, 5, 6)];
    let mut long = vec![9u8; 14];
    write_frame(&image, &mut long);
    assert_eq!(long, vec![1, 2, 3, 255, 4, 5, 6, 255, 9, 9, 9, 9, 9, 9]);
    let mut short = vec![9u8; 6];
    write_frame(&image, &mut short);
    assert_eq!(short, vec![1, 2, 3, 255, 9, 9]);
    let mut frame = vec![9u8; 4];
    write_frame(&vec![], &mut frame);
    assert_eq!(frame, vec![9, 9, 9, 9]);
}
