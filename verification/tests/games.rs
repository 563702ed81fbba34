use console_play::mine::MineSweeper;
use console_play::randomizer::Randomizer;

#[test]
fn randomizer_is_bit_exact_for_seed_zero() {
    let mut r = Randomizer::new(0);
    let expected: [u8; 8] = [9, 14, 41, 217, 210, 255, 234, 30];
    for &e in expected.iter() {
        assert_eq!(r.read_u8(), e);
    }
}

#[test]
fn randomizer_replays_identically_with_fed_bytes() {
    let mut a = Randomizer::new(7);
    let mut b = Randomizer::new(7);
    a.write_u8(b'a');
    b.write_u8(b'a');
    for _ in 0..100 {
        assert_eq!(a.read_u8(), b.read_u8());
    }
}

#[test]
fn randomizer_literal_after_entropy() {
    let mut r = Randomizer::new(7);
    r.write_u8(b'a');
    assert_eq!(r.read_u8(), 152);
    assert_eq!(r.read_u8(), 107);
    assert_eq!(r.read_u8(), 179);
}

#[test]
fn mine_status_is_stable_across_reads() {
    let mut g = MineSweeper::new(20, 20, 0);
    for y in 0..20u16 {
        for x in 0..20u16 {
            let first = g.get(x, y);
            let second = g.get(x, y);
            assert!(second.observed);
            assert_eq!(first.mine, second.mine);
            let third = g.get(x, y);
            assert_eq!(first.mine, third.mine);
        }
    }
}

#[test]
fn first_click_clearing_leaves_no_mine_nearby() {
    for seed in 0..32u64 {
        let mut g = MineSweeper::new(20, 20, seed);
        g.clear_first(5, 5);
        for y in 4..=6u16 {
            for x in 4..=6u16 {
                assert!(!g.get(x, y).mine);
            }
        }
    }
}

#[test]
fn first_click_clearing_respects_edges() {
    let mut g = MineSweeper::new(20, 20, 3);
    g.clear_first(0, 0);
    assert!(!g.get(0, 0).mine);
    assert!(!g.get(1, 0).mine);
    assert!(!g.get(0, 1).mine);
    assert!(!g.get(1, 1).mine);
}

#[test]
fn reveal_floods_zero_region_neighbors() {
    for seed in 0..16u64 {
        let mut g = MineSweeper::new(20, 20, seed);
        // after the first-click exemption the cell has no adjacent mine,
        // so revealing it floods at least its whole neighbor ring
        g.clear_first(10, 10);
        g.reveal_cell(10, 10);
        assert!(g.get(10, 10).revealed);
        for y in 9..=11u16 {
            for x in 9..=11u16 {
                assert!(g.get(x, y).revealed);
            }
        }
        // every revealed zero-count cell has all its neighbors revealed
        for y in 0..20u16 {
            for x in 0..20u16 {
                if g.get(x, y).revealed && g.val(x, y) == 0 {
                    if x > 0 {
                        assert!(g.get(x - 1, y).revealed);
                    }
                    if x < 19 {
                        assert!(g.get(x + 1, y).revealed);
                    }
                    if y > 0 {
                        assert!(g.get(x, y - 1).revealed);
                    }
                    if y < 19 {
                        assert!(g.get(x, y + 1).revealed);
                    }
                }
            }
        }
    }
}

#[test]
fn reveal_leaves_already_revealed_cells_alone() {
    let mut g = MineSweeper::new(20, 20, 1);
    g.clear_first(10, 10);
    g.reveal_cell(10, 10);
    let before = g.get(12, 12);
    g.reveal_cell(10, 10);
    let after = g.get(12, 12);
    assert_eq!(before.mine, after.mine);
    assert_eq!(before.revealed, after.revealed);
}

#[test]
fn flags_toggle_and_protect_nothing_else() {
    let mut g = MineSweeper::new(20, 20, 0);
    g.toggle_flag(3, 3);
    assert!(g.get(3, 3).flagged);
    g.toggle_flag(3, 3);
    assert!(!g.get(3, 3).flagged);
    g.set_flag(4, 4);
    assert!(g.get(4, 4).flagged);
    g.remove_flag(4, 4);
    assert!(!g.get(4, 4).flagged);
}

#[test]
fn cursor_moves_clamp_at_the_board_edges() {
    let g = MineSweeper::new(20, 20, 0);
    assert_eq!(g.move_left(0), 0);
    assert_eq!(g.move_left(5), 4);
    assert_eq!(g.move_right(19), 19);
    assert_eq!(g.move_right(3), 4);
    assert_eq!(g.move_up(0), 0);
    assert_eq!(g.move_down(19), 19);
    assert_eq!(g.up(0), None);
    assert_eq!(g.down(19), None);
    assert_eq!(g.left(0), None);
    assert_eq!(g.right(19), None);
}

#[test]
fn reset_clears_the_board_and_score() {
    let mut g = MineSweeper::new(20, 20, 0);
    g.clear_first(5, 5);
    g.reveal_cell(5, 5);
    g.reset();
    assert_eq!(g.score(), 0);
    for y in 0..20u16 {
        for x in 0..20u16 {
            let c = g.get(x, y);
            assert!(!c.revealed);
            assert!(!c.flagged);
        }
    }
}

#[test]
fn reveal_all_observes_every_cell_without_revealing() {
    let mut g = MineSweeper::new(10, 10, 9);
    g.reveal_all();
    for y in 0..10u16 {
        for x in 0..10u16 {
            let c = g.get(x, y);
            assert!(c.observed);
            assert!(!c.revealed);
        }
    }
}
