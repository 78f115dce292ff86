use fluyer::canvas::{block_canvas, blocks_needed, paint_blocks};
use fluyer::renderer::Color;

fn color(v: u8) -> Color {
    Color { r: v, g: v, b: v }
}

#[test]
fn block_counts_round_up() {
    assert_eq!(blocks_needed(0, 10), 0);
    assert_eq!(blocks_needed(1, 10), 1);
    assert_eq!(blocks_needed(10, 10), 1);
    assert_eq!(blocks_needed(11, 10), 2);
    assert_eq!(blocks_needed(96, 10), 10);
    assert_eq!(blocks_needed(u32::MAX, 1), u32::MAX);
    assert_eq!(blocks_needed(u32::MAX, 2), 1 << 31);
}

#[test]
fn blocks_are_painted_from_the_grid() {
    let grid = vec![vec![color(1), color(2)], vec![color(3), color(4)]];
    let px = paint_blocks(&grid, 3, 3, 2);
    assert_eq!(px.len(), 3);
    assert_eq!(px[0], vec![color(1), color(1), color(2)]);
    assert_eq!(px[1], vec![color(1), color(1), color(2)]);
    assert_eq!(px[2], vec![color(3), color(3), color(4)]);
}

#[test]
fn canvas_blocks_are_uniform_palette_colors() {
    let palette = vec![color(10), color(20), color(30)];
    let px = block_canvas(&palette, 7, 5, 3);
    assert_eq!(px.len(), 5);
    for y in 0..5 {
        assert_eq!(px[y].len(), 7);
        for x in 0..7 {
            assert!(palette.contains(&px[y][x]));
            assert_eq!(px[y][x], px[(y / 3) * 3][(x / 3) * 3]);
        }
    }
    let single = block_canvas(&vec![color(9)], 4, 4, 1);
    assert!(single.iter().all(|row| row.iter().all(|c| *c == color(9))));
}
