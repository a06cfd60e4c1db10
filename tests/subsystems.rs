use patata::keypad::Keypad;
use patata::reg::IndexRegister;
use patata::timer::Timer;
use patata::video::{DrawCoords, Video, HEIGHT_PIXELS, WIDTH_PIXELS};

#[test]
fn load_ok() {
    let mut i = IndexRegister::default();

    i.load(0xFF);

    assert_eq!(0xFF, i.inner);
}

#[test]
fn index_add_and_get() {
    let mut i = IndexRegister::default();
    i.load(0xFF0);
    i.add(0x0F);
    assert_eq!(0xFFF, i.get());
}

#[test]
fn is_key_pressed() {
    let mut keypad = Keypad::default();

    keypad.keys = 0b0000_0100_0000_0000;

    (0..16).for_each(|key| {
        assert_eq!(
            key == 10,
            keypad.is_key_pressed(key),
            "{key} should have been {}",
            key == 10
        );
    })
}

#[test]
fn pressed_key() {
    let mut keypad = Keypad::default();

    keypad.keys = 0b0010_0000_0000;
    assert_eq!(Some(9), keypad.pressed_key());

    keypad.keys = 0;
    assert_eq!(None, keypad.pressed_key());
}

#[test]
fn pressed_key_lowest_wins() {
    let mut keypad = Keypad::default();
    keypad.set_key(12, true);
    keypad.set_key(4, true);
    assert_eq!(Some(4), keypad.pressed_key());
    keypad.set_key(4, false);
    assert_eq!(Some(12), keypad.pressed_key());
    assert!(!keypad.is_key_pressed(4));
    keypad.set_key(15, true);
    assert_eq!(0b1001_0000_0000_0000, keypad.keys);
}

#[test]
fn tick_gt_0() {
    let mut timer = Timer { count: 10 };
    timer.tick();
    assert_eq!(9, timer.count);
}

#[test]
fn tick_eq_0() {
    let mut timer = Timer { count: 0 };
    timer.tick();
    assert_eq!(0, timer.count);
}

#[test]
fn timer_set_and_read() {
    let mut timer = Timer::default();
    timer.set(200);
    assert_eq!(200, timer.cur_count());
    timer.tick();
    assert_eq!(199, timer.cur_count());
}

#[test]
fn video_clear() {
    let mut d = Video {
        buffer: [99; WIDTH_PIXELS * HEIGHT_PIXELS],
    };

    d.clear();

    assert!(d.buffer.iter().all(|i| *i == 0))
}

#[test]
fn from_opcode_within_bounds() {
    let pos_x = 1;
    let pos_y = 1;

    let coords = DrawCoords::new(pos_x, pos_y);

    assert_eq!(pos_x as usize, coords.pos_x);
    assert_eq!(pos_y as usize, coords.pos_y);
}

#[test]
fn from_opcode_outside_bounds() {
    let pos_x = 65;
    let pos_y = 33;

    let coords = DrawCoords::new(pos_x, pos_y);

    assert_eq!(1, coords.pos_x); // 65 % WIDTH_PIXELS
    assert_eq!(1, coords.pos_y); // 33 % HEIGHT_PIXELS
}

#[test]
fn mod_clear() {
    let mut d = Video {
        buffer: [99; WIDTH_PIXELS * HEIGHT_PIXELS],
    };

    d.clear();

    assert!(d.buffer.iter().all(|i| *i == 0))
}

#[test]
fn draw() {
    let sprite = [0xF0, 0x80, 0xF0, 0x80, 0x80];
    let coords = DrawCoords::new(0, 0);

    let mut video = Video::default();

    let has_overlap = video.draw(&sprite, &coords);

    assert!(!has_overlap);

    let mut expected_buffer = vec![
        vec![0xFF, 0xFF, 0xFF, 0xFF, 0x00, 0x00, 0x00, 0x00],
        vec![0xFF, 0x00, 0x00, 0x00, 0x00, 0x00, 0x00, 0x00],
        vec![0xFF, 0xFF, 0xFF, 0xFF, 0x00, 0x00, 0x00, 0x00],
        vec![0xFF, 0x00, 0x00, 0x00, 0x00, 0x00, 0x00, 0x00],
        vec![0xFF, 0x00, 0x00, 0x00, 0x00, 0x00, 0x00, 0x00],
    ];

    expected_buffer
        .iter_mut()
        .for_each(|i| i.extend(vec![0; 56]));

    let expected: Vec<_> = expected_buffer.into_iter().flatten().collect();

    assert_eq!(
        expected,
        Vec::from(&video.buffer[0..(WIDTH_PIXELS * sprite.len())])
    );
}

#[test]
fn draw_with_collision() {
    let f_sprite = [0xF0, 0x80, 0xF0, 0x80, 0x80];
    let e_sprite = [0xF0, 0x80, 0xF0, 0x80, 0xF0];

    let coords = DrawCoords::new(0, 0);

    let mut video = Video::default();

    let _ = video.draw(&f_sprite, &coords);
    let has_overlap = video.draw(&e_sprite, &coords);

    assert!(has_overlap);

    let mut expected_buffer = vec![
        vec![0x00, 0x00, 0x00, 0x00, 0x00, 0x00, 0x00, 0x00],
        vec![0x00, 0x00, 0x00, 0x00, 0x00, 0x00, 0x00, 0x00],
        vec![0x00, 0x00, 0x00, 0x00, 0x00, 0x00, 0x00, 0x00],
        vec![0x00, 0x00, 0x00, 0x00, 0x00, 0x00, 0x00, 0x00],
        vec![0x00, 0xFF, 0xFF, 0xFF, 0x00, 0x00, 0x00, 0x00],
    ];

    expected_buffer
        .iter_mut()
        .for_each(|i| i.extend(vec![0; 56]));

    let expected: Vec<_> = expected_buffer.into_iter().flatten().collect();

    assert_eq!(
        expected,
        Vec::from(&video.buffer[0..(WIDTH_PIXELS * f_sprite.len())])
    );
}

#[test]
fn draw_clips_at_right_and_bottom_edges() {
    let mut video = Video::default();
    let coords = DrawCoords::new(62, 30);
    let has_overlap = video.draw(&[0xFF, 0xFF, 0xFF], &coords);
    assert!(!has_overlap);
    let lit: Vec<usize> = (0..WIDTH_PIXELS * HEIGHT_PIXELS)
        .filter(|&i| video.buffer[i] != 0)
        .collect();
    assert_eq!(vec![30 * 64 + 62, 30 * 64 + 63, 31 * 64 + 62, 31 * 64 + 63], lit);
}
