use select2explain::app_icon::{draw_line, fill_circle, fill_rect, set_pixel, stroke_polygon};

const RED: [u8; 4] = [255, 0, 0, 255];

fn canvas() -> Vec<u8> {
    vec![0u8; 32 * 32 * 4]
}

fn at(c: &[u8], x: usize, y: usize) -> [u8; 4] {
    let i = (y * 32 + x) * 4;
    [c[i], c[i + 1], c[i + 2], c[i + 3]]
}

fn painted(c: &[u8]) -> usize {
    (0..32).flat_map(|y| (0..32).map(move |x| (x, y))).filter(|&(x, y)| at(c, x, y) != [0, 0, 0, 0]).count()
}

#[test]
fn pixels_off_the_canvas_are_ignored() {
    let mut c = canvas();
    set_pixel(&mut c, -1, 0, RED);
    set_pixel(&mut c, 32, 5, RED);
    assert_eq!(painted(&c), 0);
    set_pixel(&mut c, 31, 31, RED);
    assert_eq!(at(&c, 31, 31), RED);
}

#[test]
fn rectangles() {
    let mut c = canvas();
    fill_rect(&mut c, 8, 15, 10, 2, RED);
    assert_eq!(painted(&c), 20);
    assert_eq!(at(&c, 8, 15), RED);
    assert_eq!(at(&c, 17, 16), RED);
    assert_eq!(at(&c, 18, 16), [0, 0, 0, 0]);
    fill_rect(&mut c, 30, 30, 10, 10, RED);
    assert_eq!(painted(&c), 24);
}

#[test]
fn circles() {
    let mut c = canvas();
    fill_circle(&mut c, 20, 12, 1, RED);
    assert_eq!(painted(&c), 5);
    let mut c = canvas();
    fill_circle(&mut c, 20, 12, 3, RED);
    assert_eq!(painted(&c), 29);
}

#[test]
fn lines_join_their_ends() {
    let mut c = canvas();
    draw_line(&mut c, 4, 7, 21, 7, RED);
    assert_eq!(painted(&c), 18);
    let mut c = canvas();
    draw_line(&mut c, 21, 7, 27, 13, RED);
    assert_eq!(painted(&c), 7);
    assert_eq!(at(&c, 24, 10), RED);
    let mut c = canvas();
    draw_line(&mut c, 0, 0, 5, 2, RED);
    assert_eq!(at(&c, 0, 0), RED);
    assert_eq!(at(&c, 5, 2), RED);
    assert_eq!(painted(&c), 6);
}

#[test]
fn polygons_are_outlined() {
    let mut c = canvas();
    stroke_polygon(&mut c, &[(4, 7), (21, 7), (27, 13), (16, 25), (4, 25)], RED);
    assert_eq!(at(&c, 4, 7), RED);
    assert_eq!(at(&c, 4, 16), RED);
    assert_eq!(at(&c, 10, 16), [0, 0, 0, 0]);
}

#[test]
fn large_shapes_are_clipped_to_the_canvas() {
    let mut c = canvas();
    fill_circle(&mut c, 16, 16, 100, RED);
    assert_eq!(painted(&c), 32 * 32);
    let mut c = canvas();
    fill_circle(&mut c, 16, 16, -3, RED);
    assert_eq!(painted(&c), 0);
    let mut c = canvas();
    draw_line(&mut c, -100_000, 5, 100_000, 5, RED);
    assert_eq!(painted(&c), 32);
    assert_eq!(at(&c, 31, 5), RED);
}
