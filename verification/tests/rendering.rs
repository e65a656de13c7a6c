use flag_generator::{create_flag, Color, FlagBackground, FlagForeground, FlagForegroundShape};

const RED: Color = Color { r: 255, g: 0, b: 0 };
const GREEN: Color = Color { r: 0, g: 255, b: 0 };
const BLUE: Color = Color { r: 0, g: 0, b: 255 };
const WHITE: Color = Color { r: 255, g: 255, b: 255 };

fn stripes(horizontal: bool, lines: &[Color]) -> FlagBackground {
    FlagBackground { horizontal, lines: lines.to_vec() }
}

#[test]
fn solid_red_with_blue_circle_on_four_by_four() {
    let emblem = FlagForeground { color: BLUE, shape: FlagForegroundShape::Circle };
    let flag = create_flag(stripes(false, &[RED]), Some(emblem), 4, 4);
    assert_eq!(flag.width(), 4);
    assert_eq!(flag.height(), 4);
    for y in 0..4u32 {
        for x in 0..4u32 {
            let expected = if x >= 1 && y >= 1 { BLUE } else { RED };
            assert_eq!(flag.pixel(x, y), Some(expected), "pixel ({x}, {y})");
        }
    }
}

#[test]
fn two_stripes_meet_in_the_middle_of_an_even_width() {
    let flag = create_flag(stripes(true, &[RED, GREEN]), None, 6, 3);
    for y in 0..3u32 {
        for x in 0..6u32 {
            let expected = if x < 3 { RED } else { GREEN };
            assert_eq!(flag.pixel(x, y), Some(expected), "pixel ({x}, {y})");
        }
    }
}

#[test]
fn two_stripes_leave_the_middle_column_of_an_odd_width_to_the_first() {
    let flag = create_flag(stripes(true, &[RED, GREEN]), None, 5, 2);
    for y in 0..2u32 {
        assert_eq!(flag.pixel(0, y), Some(RED));
        assert_eq!(flag.pixel(1, y), Some(RED));
        assert_eq!(flag.pixel(2, y), Some(RED));
        assert_eq!(flag.pixel(3, y), Some(GREEN));
        assert_eq!(flag.pixel(4, y), Some(GREEN));
    }
}

#[test]
fn three_stripes_from_top_to_bottom() {
    let flag = create_flag(stripes(false, &[RED, WHITE, BLUE]), None, 2, 7);
    let rows = [RED, RED, RED, WHITE, WHITE, BLUE, BLUE];
    for y in 0..7u32 {
        for x in 0..2u32 {
            assert_eq!(flag.pixel(x, y), Some(rows[y as usize]), "pixel ({x}, {y})");
        }
    }
}

#[test]
fn more_stripes_than_pixels_skip_some_stripes() {
    let flag = create_flag(stripes(true, &[RED, GREEN, BLUE, WHITE, RED]), None, 2, 1);
    assert_eq!(flag.pixel(0, 0), Some(RED));
    assert_eq!(flag.pixel(1, 0), Some(BLUE));
}

#[test]
fn rendering_twice_gives_the_same_pixels() {
    let emblem = FlagForeground { color: WHITE, shape: FlagForegroundShape::Ring(250_000) };
    let background = stripes(true, &[RED, GREEN, BLUE]);
    let first = create_flag(background.clone(), Some(emblem), 33, 21);
    let second = create_flag(background, Some(emblem), 33, 21);
    assert_eq!(first.width(), second.width());
    assert_eq!(first.height(), second.height());
    assert_eq!(first.into_bytes(), second.into_bytes());
}

#[test]
fn bytes_come_row_by_row_with_three_channels_each() {
    let a = Color { r: 1, g: 2, b: 3 };
    let b = Color { r: 4, g: 5, b: 6 };
    let flag = create_flag(stripes(false, &[a, b]), None, 2, 2);
    assert_eq!(flag.into_bytes(), vec![1, 2, 3, 1, 2, 3, 4, 5, 6, 4, 5, 6]);
}

#[test]
fn no_pixels_where_a_side_is_zero() {
    let emblem = FlagForeground { color: BLUE, shape: FlagForegroundShape::Circle };
    let flat = create_flag(stripes(true, &[RED]), Some(emblem), 5, 0);
    assert_eq!(flat.width(), 5);
    assert_eq!(flat.height(), 0);
    assert_eq!(flat.pixel(0, 0), None);
    assert_eq!(flat.into_bytes(), Vec::<u8>::new());
    let thin = create_flag(stripes(false, &[RED, GREEN]), None, 0, 5);
    assert_eq!(thin.width(), 0);
    assert_eq!(thin.height(), 5);
    assert_eq!(thin.pixel(0, 0), None);
    assert_eq!(thin.into_bytes(), Vec::<u8>::new());
}

#[test]
fn no_pixel_outside_the_grid() {
    let flag = create_flag(stripes(true, &[RED]), None, 3, 2);
    assert_eq!(flag.pixel(2, 1), Some(RED));
    assert_eq!(flag.pixel(3, 1), None);
    assert_eq!(flag.pixel(2, 2), None);
    assert_eq!(flag.pixel(u32::MAX, u32::MAX), None);
}

#[test]
fn emblem_leaves_the_stripes_around_it() {
    let emblem = FlagForeground { color: WHITE, shape: FlagForegroundShape::LeftTriangle };
    let flag = create_flag(stripes(false, &[RED, BLUE]), Some(emblem), 4, 4);
    let expected = [
        [RED, RED, RED, RED],
        [WHITE, RED, RED, RED],
        [WHITE, WHITE, BLUE, BLUE],
        [WHITE, BLUE, BLUE, BLUE],
    ];
    for y in 0..4u32 {
        for x in 0..4u32 {
            assert_eq!(flag.pixel(x, y), Some(expected[y as usize][x as usize]), "pixel ({x}, {y})");
        }
    }
}

#[test]
fn draw_on_paints_over_an_earlier_emblem() {
    let disc = FlagForeground { color: BLUE, shape: FlagForegroundShape::Circle };
    let wedge = FlagForeground { color: WHITE, shape: FlagForegroundShape::LeftTriangle };
    let mut flag = create_flag(stripes(true, &[RED]), Some(disc), 4, 4);
    wedge.draw_on(&mut flag);
    let expected = [
        [RED, RED, RED, RED],
        [WHITE, BLUE, BLUE, BLUE],
        [WHITE, WHITE, BLUE, BLUE],
        [WHITE, BLUE, BLUE, BLUE],
    ];
    for y in 0..4u32 {
        for x in 0..4u32 {
            assert_eq!(flag.pixel(x, y), Some(expected[y as usize][x as usize]), "pixel ({x}, {y})");
        }
    }
}

#[test]
fn ring_on_a_ten_by_ten_grid() {
    let emblem = FlagForeground { color: WHITE, shape: FlagForegroundShape::Ring(200_000) };
    let flag = create_flag(stripes(true, &[RED]), Some(emblem), 10, 10);
    for y in 0..10u32 {
        for x in 0..10u32 {
            let dx = x as i64 - 5;
            let dy = y as i64 - 5;
            let d2 = dx * dx + dy * dy;
            let expected = if (9..=16).contains(&d2) { WHITE } else { RED };
            assert_eq!(flag.pixel(x, y), Some(expected), "pixel ({x}, {y})");
        }
    }
    assert_eq!(flag.pixel(5, 5), Some(RED));
    assert_eq!(flag.pixel(8, 5), Some(WHITE));
    assert_eq!(flag.pixel(9, 5), Some(WHITE));
    assert_eq!(flag.pixel(7, 5), Some(RED));
    assert_eq!(flag.pixel(8, 8), Some(RED));
}

#[test]
fn circle_is_stretched_on_a_wide_grid() {
    let emblem = FlagForeground { color: BLUE, shape: FlagForegroundShape::Circle };
    let flag = create_flag(stripes(true, &[RED]), Some(emblem), 8, 4);
    for y in 0..4u32 {
        for x in 0..8u32 {
            let expected = if (3..=5).contains(&x) && (1..=3).contains(&y) { BLUE } else { RED };
            assert_eq!(flag.pixel(x, y), Some(expected), "pixel ({x}, {y})");
        }
    }
}
