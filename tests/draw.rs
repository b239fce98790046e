use crab_chip::{draw_sprite, VIDEO_HEIGHT, VIDEO_WIDTH};

fn memory_with(addr: usize, bytes: &[u8]) -> [u8; 4096] {
    let mut memory = [0u8; 4096];
    memory[addr..addr + bytes.len()].copy_from_slice(bytes);
    memory
}

#[test]
fn drawing_twice_sets_then_clears_with_collision() {
    let mut gfx = [0u8; 2048];
    let memory = memory_with(0x300, &[0xFF]);
    let first = draw_sprite(&mut gfx, &memory, 0, 0, 1, 0x300);
    assert!(!first);
    assert!(gfx[..8].iter().all(|&c| c == 0xFF));
    assert!(gfx[8..].iter().all(|&c| c == 0x00));
    let second = draw_sprite(&mut gfx, &memory, 0, 0, 1, 0x300);
    assert!(second);
    assert!(gfx.iter().all(|&c| c == 0x00));
}

#[test]
fn sprite_bits_are_drawn_most_significant_first() {
    let mut gfx = [0u8; 2048];
    let memory = memory_with(0x300, &[0b1010_0000, 0b0000_0001]);
    draw_sprite(&mut gfx, &memory, 3, 2, 2, 0x300);
    let lit: Vec<usize> = (0..2048).filter(|&i| gfx[i] == 0xFF).collect();
    assert_eq!(lit, vec![2 * 64 + 3, 2 * 64 + 5, 3 * 64 + 10]);
}

#[test]
fn pixels_past_the_right_edge_are_clipped() {
    let mut gfx = [0u8; 2048];
    let memory = memory_with(0x300, &[0xFF]);
    draw_sprite(&mut gfx, &memory, 60, 0, 1, 0x300);
    let lit: Vec<usize> = (0..2048).filter(|&i| gfx[i] == 0xFF).collect();
    assert_eq!(lit, vec![60, 61, 62, 63]);
}

#[test]
fn rows_past_the_bottom_edge_are_clipped() {
    let mut gfx = [0u8; 2048];
    let memory = memory_with(0x300, &[0x80, 0x80, 0x80]);
    draw_sprite(&mut gfx, &memory, 0, 31, 3, 0x300);
    let lit: Vec<usize> = (0..2048).filter(|&i| gfx[i] == 0xFF).collect();
    assert_eq!(lit, vec![31 * 64]);
}

#[test]
fn origin_wraps_around_the_screen() {
    let mut gfx = [0u8; 2048];
    let memory = memory_with(0x300, &[0x80]);
    draw_sprite(&mut gfx, &memory, (VIDEO_WIDTH + 5) as u8, (VIDEO_HEIGHT + 1) as u8, 1, 0x300);
    let lit: Vec<usize> = (0..2048).filter(|&i| gfx[i] == 0xFF).collect();
    assert_eq!(lit, vec![64 + 5]);
}

#[test]
fn sprite_rows_past_memory_read_as_zero() {
    let mut gfx = [0u8; 2048];
    let mut memory = [0u8; 4096];
    memory[4095] = 0xFF;
    let collision = draw_sprite(&mut gfx, &memory, 0, 0, 3, 4095);
    assert!(!collision);
    let lit: Vec<usize> = (0..2048).filter(|&i| gfx[i] == 0xFF).collect();
    assert_eq!(lit, (0..8).collect::<Vec<usize>>());
}
