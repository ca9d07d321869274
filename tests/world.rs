use sandbox::frame::init_pixels;
use sandbox::{Particle, World};

fn empty_world(width: usize, height: usize) -> World {
    let a = vec![Particle::Void; width * height].into_boxed_slice();
    let b = vec![Particle::Void; width * height].into_boxed_slice();
    World::new(width, height, a, b)
}

fn snapshot(w: &World) -> Vec<Particle> {
    let mut cells = Vec::new();
    for y in 0..w.height() {
        for x in 0..w.width() {
            cells.push(w.get(x, y));
        }
    }
    cells
}

fn count(w: &World, p: Particle) -> usize {
    snapshot(w).iter().filter(|&&q| q == p).count()
}

fn counts(w: &World) -> [usize; 5] {
    [
        count(w, Particle::Sand),
        count(w, Particle::Stone),
        count(w, Particle::Water),
        count(w, Particle::Oil),
        count(w, Particle::Void),
    ]
}

#[test]
fn new_world_holds_the_given_grid() {
    let mut a = vec![Particle::Void; 6];
    a[4] = Particle::Oil;
    let b = vec![Particle::Sand; 6];
    let w = World::new(3, 2, a.into_boxed_slice(), b.into_boxed_slice());
    assert_eq!(w.width(), 3);
    assert_eq!(w.height(), 2);
    assert_eq!(w.get(1, 1), Particle::Oil);
    assert_eq!(w.get(0, 0), Particle::Void);
}

#[test]
fn spawn_overwrites_one_cell() {
    let mut w = empty_world(3, 3);
    w.spawn(2, 1, Particle::Stone);
    assert_eq!(w.get(2, 1), Particle::Stone);
    w.spawn(2, 1, Particle::Water);
    assert_eq!(w.get(2, 1), Particle::Water);
    assert_eq!(count(&w, Particle::Void), 8);
}

#[test]
fn density_order() {
    assert!(Particle::Stone.density() > Particle::Sand.density());
    assert!(Particle::Sand.density() > Particle::Water.density());
    assert!(Particle::Water.density() > Particle::Oil.density());
    assert!(Particle::Oil.density() > Particle::Void.density());
    assert_eq!(Particle::Void.density(), 0);
    assert_eq!(Particle::Stone.density(), 255);
}

#[test]
fn colors() {
    assert_eq!(Particle::Sand.color(), (255, 255, 0));
    assert_eq!(Particle::Stone.color(), (161, 161, 161));
    assert_eq!(Particle::Water.color(), (0, 150, 255));
    assert_eq!(Particle::Oil.color(), (189, 199, 86));
    assert_eq!(Particle::Void.color(), (0, 0, 0));
}

#[test]
fn ranks() {
    assert_eq!(Particle::from_rank(0), Particle::Void);
    assert_eq!(Particle::from_rank(1), Particle::Sand);
    assert_eq!(Particle::from_rank(2), Particle::Stone);
    assert_eq!(Particle::from_rank(3), Particle::Water);
    assert_eq!(Particle::from_rank(4), Particle::Oil);
    assert_eq!(Particle::from_rank(5), Particle::Void);
    assert_eq!(Particle::from_rank(usize::MAX), Particle::Void);
}

#[test]
fn single_sand_grain_falls() {
    let mut w = empty_world(1, 3);
    w.spawn(0, 0, Particle::Sand);
    w.update();
    assert_eq!(w.get(0, 1), Particle::Sand);
    w.update();
    assert_eq!(w.get(0, 0), Particle::Void);
    assert_eq!(w.get(0, 1), Particle::Void);
    assert_eq!(w.get(0, 2), Particle::Sand);
    w.update();
    assert_eq!(w.get(0, 2), Particle::Sand);
}

#[test]
fn single_sand_grain_falls_in_wider_grid() {
    let mut w = empty_world(3, 3);
    w.spawn(0, 0, Particle::Sand);
    w.update();
    w.update();
    assert_eq!(w.get(0, 2), Particle::Sand);
    assert_eq!(count(&w, Particle::Sand), 1);
    assert_eq!(count(&w, Particle::Void), 8);
}

#[test]
fn sand_pile_on_stone_floor() {
    let mut w = empty_world(5, 4);
    for x in 0..5 {
        w.spawn(x, 3, Particle::Stone);
        w.spawn(x, 0, Particle::Sand);
    }
    for _ in 0..6 {
        w.update();
    }
    for x in 0..5 {
        assert_eq!(w.get(x, 3), Particle::Stone);
        assert_eq!(w.get(x, 2), Particle::Sand);
        assert_eq!(w.get(x, 1), Particle::Void);
        assert_eq!(w.get(x, 0), Particle::Void);
    }
}

#[test]
fn liquid_finds_lower_path_sideways() {
    let mut w = empty_world(5, 2);
    w.spawn(2, 0, Particle::Water);
    w.spawn(2, 1, Particle::Stone);
    w.update();
    // both neighbours have an open cell below: the left one wins
    assert_eq!(w.get(1, 0), Particle::Water);
    assert_eq!(w.get(2, 0), Particle::Void);
    assert_eq!(w.get(3, 0), Particle::Void);
    w.update();
    assert_eq!(w.get(1, 1), Particle::Water);
    assert_eq!(w.get(2, 1), Particle::Stone);
}

#[test]
fn liquid_flows_right_when_left_is_blocked() {
    let mut w = empty_world(5, 2);
    w.spawn(2, 0, Particle::Water);
    w.spawn(2, 1, Particle::Stone);
    w.spawn(1, 0, Particle::Stone);
    w.update();
    assert_eq!(w.get(3, 0), Particle::Water);
    assert_eq!(w.get(2, 0), Particle::Void);
}

#[test]
fn liquid_prefers_the_nearest_column() {
    let mut w = empty_world(5, 2);
    w.spawn(2, 0, Particle::Water);
    w.spawn(1, 1, Particle::Stone);
    w.spawn(2, 1, Particle::Stone);
    w.spawn(4, 1, Particle::Stone);
    w.update();
    // the open cell below column 3 is nearer than the one below column 0
    assert_eq!(w.get(3, 0), Particle::Water);
    assert_eq!(w.get(2, 0), Particle::Void);
    assert_eq!(w.get(0, 0), Particle::Void);
}

#[test]
fn liquid_goes_to_the_open_column_on_the_right() {
    let mut w = empty_world(5, 2);
    w.spawn(2, 0, Particle::Water);
    for x in 0..4 {
        w.spawn(x, 1, Particle::Stone);
    }
    w.update();
    assert_eq!(w.get(4, 0), Particle::Water);
    assert_eq!(w.get(2, 0), Particle::Void);
    w.update();
    assert_eq!(w.get(4, 1), Particle::Water);
}

#[test]
fn liquid_path_blocked_by_denser_cell() {
    let mut w = empty_world(5, 2);
    w.spawn(2, 0, Particle::Oil);
    w.spawn(1, 0, Particle::Water);
    w.spawn(3, 0, Particle::Sand);
    for x in 1..4 {
        w.spawn(x, 1, Particle::Stone);
    }
    let before = snapshot(&w);
    w.update();
    // the sand slides down onto (4, 1); the water moves left, above the open cell
    // at (0, 1); the oil stays: the water blocks its left, and no cell below its
    // right path is lighter than oil
    assert_eq!(w.get(4, 1), Particle::Sand);
    assert_eq!(w.get(0, 0), Particle::Water);
    assert_eq!(w.get(2, 0), Particle::Oil);
    assert_eq!(counts(&w), [1, 3, 1, 1, 4]);
    assert_ne!(snapshot(&w), before);
}

#[test]
fn liquid_reaches_a_farther_column_on_its_row() {
    let mut w = empty_world(5, 2);
    w.spawn(2, 0, Particle::Water);
    for x in 1..5 {
        w.spawn(x, 1, Particle::Stone);
    }
    w.update();
    assert_eq!(w.get(0, 0), Particle::Water);
    assert_eq!(w.get(2, 0), Particle::Void);
    w.update();
    assert_eq!(w.get(0, 1), Particle::Water);
}

#[test]
fn liquid_without_a_way_down_stays() {
    let mut w = empty_world(3, 2);
    w.spawn(1, 0, Particle::Water);
    for x in 0..3 {
        w.spawn(x, 1, Particle::Stone);
    }
    let before = snapshot(&w);
    w.update();
    assert_eq!(snapshot(&w), before);
}

#[test]
fn sand_slides_down_left_first() {
    let mut w = empty_world(3, 2);
    w.spawn(1, 0, Particle::Sand);
    w.spawn(1, 1, Particle::Stone);
    w.update();
    assert_eq!(w.get(0, 1), Particle::Sand);
    assert_eq!(w.get(1, 0), Particle::Void);
}

#[test]
fn sand_slides_down_right_when_left_is_taken() {
    let mut w = empty_world(3, 2);
    w.spawn(1, 0, Particle::Sand);
    w.spawn(1, 1, Particle::Stone);
    w.spawn(0, 1, Particle::Stone);
    w.update();
    assert_eq!(w.get(2, 1), Particle::Sand);
    assert_eq!(w.get(1, 0), Particle::Void);
}

#[test]
fn sand_on_stone_with_no_free_diagonal_stays() {
    let mut w = empty_world(3, 2);
    w.spawn(1, 0, Particle::Sand);
    for x in 0..3 {
        w.spawn(x, 1, Particle::Stone);
    }
    let before = snapshot(&w);
    w.update();
    assert_eq!(snapshot(&w), before);
}

#[test]
fn sand_sinks_through_water() {
    let mut w = empty_world(1, 2);
    w.spawn(0, 0, Particle::Sand);
    w.spawn(0, 1, Particle::Water);
    w.update();
    assert_eq!(w.get(0, 0), Particle::Water);
    assert_eq!(w.get(0, 1), Particle::Sand);
}

#[test]
fn water_sinks_below_oil() {
    let mut w = empty_world(1, 2);
    w.spawn(0, 0, Particle::Water);
    w.spawn(0, 1, Particle::Oil);
    w.update();
    assert_eq!(w.get(0, 0), Particle::Oil);
    assert_eq!(w.get(0, 1), Particle::Water);
}

#[test]
fn oil_floats_on_water() {
    let mut w = empty_world(1, 2);
    w.spawn(0, 0, Particle::Oil);
    w.spawn(0, 1, Particle::Water);
    w.update();
    assert_eq!(w.get(0, 0), Particle::Oil);
    assert_eq!(w.get(0, 1), Particle::Water);
}

#[test]
fn bottom_row_does_not_move() {
    let mut w = empty_world(3, 2);
    w.spawn(0, 1, Particle::Sand);
    w.spawn(1, 1, Particle::Water);
    w.spawn(2, 1, Particle::Oil);
    let before = snapshot(&w);
    w.update();
    assert_eq!(snapshot(&w), before);
    w.update();
    assert_eq!(snapshot(&w), before);
}

#[test]
fn single_row_grid_is_still() {
    let mut w = empty_world(4, 1);
    w.spawn(0, 0, Particle::Water);
    w.spawn(3, 0, Particle::Sand);
    let before = snapshot(&w);
    w.update();
    assert_eq!(snapshot(&w), before);
}

#[test]
fn empty_grid_tick() {
    let mut w = empty_world(0, 0);
    w.update();
    assert_eq!(w.width(), 0);
    let mut v = empty_world(3, 3);
    v.update();
    assert_eq!(count(&v, Particle::Void), 9);
}

fn mixed_world() -> World {
    let mut w = empty_world(6, 5);
    w.spawn(0, 0, Particle::Sand);
    w.spawn(1, 0, Particle::Water);
    w.spawn(2, 0, Particle::Oil);
    w.spawn(3, 0, Particle::Sand);
    w.spawn(4, 0, Particle::Water);
    w.spawn(5, 0, Particle::Sand);
    w.spawn(0, 1, Particle::Oil);
    w.spawn(1, 1, Particle::Sand);
    w.spawn(2, 2, Particle::Stone);
    w.spawn(3, 2, Particle::Water);
    w.spawn(4, 3, Particle::Stone);
    w.spawn(1, 3, Particle::Water);
    w.spawn(0, 4, Particle::Oil);
    w.spawn(5, 4, Particle::Stone);
    w
}

#[test]
fn tick_conserves_every_material() {
    let mut w = mixed_world();
    let before = counts(&w);
    assert_eq!(before, [4, 3, 4, 3, 16]);
    for _ in 0..10 {
        w.update();
        assert_eq!(counts(&w), before);
    }
}

#[test]
fn stone_never_moves() {
    let mut w = mixed_world();
    for _ in 0..10 {
        w.update();
        assert_eq!(w.get(2, 2), Particle::Stone);
        assert_eq!(w.get(4, 3), Particle::Stone);
        assert_eq!(w.get(5, 4), Particle::Stone);
    }
}

#[test]
fn stone_and_void_grid_is_at_rest() {
    let mut w = empty_world(4, 3);
    w.spawn(1, 0, Particle::Stone);
    w.spawn(2, 1, Particle::Stone);
    w.spawn(0, 2, Particle::Stone);
    let before = snapshot(&w);
    w.update();
    assert_eq!(snapshot(&w), before);
    w.update();
    assert_eq!(snapshot(&w), before);
}

#[test]
fn second_buffer_contents_do_not_matter() {
    let a = vec![Particle::Void; 4].into_boxed_slice();
    let b = vec![Particle::Stone; 4].into_boxed_slice();
    let mut w = World::new(2, 2, a, b);
    w.spawn(1, 0, Particle::Sand);
    w.update();
    assert_eq!(snapshot(&w), vec![Particle::Void, Particle::Void, Particle::Void, Particle::Sand]);
}

#[test]
fn render_side_panel_marks_selected() {
    let mut w = empty_world(2, 5);
    w.spawn(0, 0, Particle::Sand);
    w.spawn(1, 4, Particle::Water);
    let fw = 2 + 3;
    let mut frame = vec![7u8; 4 * fw * 5 + 4];
    w.draw(&mut frame, Particle::Water);
    for y in 0..5 {
        let marker = frame[4 * (y * fw + 3)];
        if y == 3 {
            assert_eq!(marker, 255);
        } else {
            assert_eq!(marker, 0);
        }
        // the marker pixel's other bytes are not written
        assert_eq!(frame[4 * (y * fw + 3) + 1], 7);
        // the gap column is not written
        assert_eq!(frame[4 * (y * fw + 2)], 7);
        let (r, g, b) = Particle::from_rank(y).color();
        assert_eq!(frame[4 * (y * fw + 4)], r);
        assert_eq!(frame[4 * (y * fw + 4) + 1], g);
        assert_eq!(frame[4 * (y * fw + 4) + 2], b);
        assert_eq!(frame[4 * (y * fw + 4) + 3], 7);
    }
    assert_eq!(&frame[0..4], &[255, 255, 0, 7]);
    assert_eq!(&frame[4..8], &[0, 0, 0, 7]);
    assert_eq!(&frame[4 * (4 * fw + 1)..4 * (4 * fw + 1) + 4], &[0, 150, 255, 7]);
    assert_eq!(&frame[4 * fw * 5..], &[7, 7, 7, 7]);
}

#[test]
fn render_marks_each_selection_on_its_row() {
    let w = empty_world(1, 6);
    let fw = 4;
    for (rank, p) in [(1, Particle::Sand), (2, Particle::Stone), (4, Particle::Oil)] {
        let mut frame = vec![0u8; 4 * fw * 6];
        w.draw(&mut frame, p);
        for y in 0..6 {
            let expect = if y == rank { 255 } else { 0 };
            assert_eq!(frame[4 * (y * fw + 2)], expect);
        }
    }
}

#[test]
fn init_pixels_blackens_the_leading_pixels() {
    let mut frame = vec![9u8; 4 * 7];
    init_pixels(&mut frame, 3, 2);
    for p in 0..6 {
        assert_eq!(&frame[4 * p..4 * p + 4], &[0, 0, 0, 9]);
    }
    assert_eq!(&frame[24..28], &[9, 9, 9, 9]);
}
