use forest_fire::{Adjacency, Forest, State, PROBABILITY_SCALE};

fn cell(forest: &Forest, row: u32, column: u32) -> State {
    forest.patches()[(row * forest.width() + column) as usize]
}

#[test]
fn new_forest_is_all_trees() {
    let forest = Forest::new(4, 3, 100, 10);
    assert_eq!(forest.width(), 4);
    assert_eq!(forest.height(), 3);
    assert_eq!(forest.patches().len(), 12);
    assert!(forest.patches().iter().all(|&s| s == State::Tree));
    assert_eq!(forest.adjacency(), Adjacency::Clipped);
}

#[test]
fn size_is_kept_by_every_tick() {
    let mut forest = Forest::with_policy(5, 2, 300_000, 200_000, Adjacency::Toroidal, Some(11));
    for _ in 0..20 {
        forest.tick();
        assert_eq!(forest.patches().len(), 10);
    }
    let mut clipped = Forest::with_policy(1, 1, 0, 0, Adjacency::Clipped, None);
    clipped.tick();
    assert_eq!(clipped.patches().len(), 1);
}

#[test]
fn burning_cells_become_empty() {
    let mut forest = Forest::with_policy(4, 4, PROBABILITY_SCALE, PROBABILITY_SCALE, Adjacency::Clipped, Some(3));
    forest.set_patch(0, 0, State::Burning);
    forest.set_patch(2, 3, State::Burning);
    forest.tick();
    assert_eq!(forest.get_patch(0, 0), State::Empty);
    assert_eq!(forest.get_patch(2, 3), State::Empty);
}

#[test]
fn bare_ground_stays_bare_without_regrowth() {
    let mut forest = Forest::with_policy(3, 1, 0, 0, Adjacency::Clipped, Some(5));
    forest.set_patch(0, 1, State::Empty);
    for _ in 0..10 {
        forest.tick();
        assert_eq!(forest.get_patch(0, 1), State::Empty);
    }
}

#[test]
fn regrowth_follows_the_sample() {
    let mut forest = Forest::with_policy(2, 1, 500_000, 0, Adjacency::Clipped, Some(1));
    forest.set_patch(0, 0, State::Empty);
    forest.set_patch(0, 1, State::Empty);
    forest.tick_with(&vec![499_999, 500_000]);
    assert_eq!(forest.get_patch(0, 0), State::Tree);
    assert_eq!(forest.get_patch(0, 1), State::Empty);
}

#[test]
fn lightning_follows_the_sample() {
    let mut forest = Forest::with_policy(3, 1, 0, 250_000, Adjacency::Clipped, Some(1));
    forest.tick_with(&vec![249_999, 250_000, 0]);
    assert_eq!(forest.render(), "BTB\n");
}

#[test]
fn certain_lightning_ignites_every_tree() {
    let mut forest = Forest::with_policy(3, 2, 0, PROBABILITY_SCALE, Adjacency::Clipped, None);
    forest.tick();
    assert!(forest.patches().iter().all(|&s| s == State::Burning));
    forest.tick();
    assert!(forest.patches().iter().all(|&s| s == State::Empty));
}

#[test]
fn certain_regrowth_replants_every_cell() {
    let mut forest = Forest::with_policy(2, 2, PROBABILITY_SCALE, 0, Adjacency::Toroidal, Some(9));
    for row in 0..2 {
        for column in 0..2 {
            forest.set_patch(row, column, State::Empty);
        }
    }
    forest.tick();
    assert!(forest.patches().iter().all(|&s| s == State::Tree));
}

#[test]
fn toroidal_corners_are_neighbors() {
    let mut forest = Forest::with_policy(4, 5, 0, 0, Adjacency::Toroidal, Some(2));
    forest.set_patch(4, 3, State::Burning);
    assert!(forest.has_burning_neighbor(0, 0));
    forest.set_patch(4, 3, State::Tree);
    forest.set_patch(0, 0, State::Burning);
    assert!(forest.has_burning_neighbor(4, 3));
}

#[test]
fn clipped_corners_are_not_neighbors() {
    let mut forest = Forest::new(4, 5, 0, 0);
    forest.set_patch(4, 3, State::Burning);
    assert!(!forest.has_burning_neighbor(0, 0));
    forest.set_patch(4, 3, State::Tree);
    forest.set_patch(0, 0, State::Burning);
    assert!(!forest.has_burning_neighbor(4, 3));
    assert!(forest.has_burning_neighbor(1, 1));
    assert!(!forest.has_burning_neighbor(2, 2));
}

#[test]
fn clipped_fire_spreads_to_the_eight_neighbors_only() {
    let mut forest = Forest::new(5, 5, 0, 0);
    forest.set_patch(0, 0, State::Burning);
    forest.set_patch(2, 2, State::Burning);
    forest.tick();
    assert_eq!(forest.render(), "EBTTT\nBBBBT\nTBEBT\nTBBBT\nTTTTT\n");
}

#[test]
fn same_seed_gives_same_cells() {
    let run = |seed: u64| {
        let mut forest = Forest::with_policy(6, 4, 400_000, 50_000, Adjacency::Toroidal, Some(seed));
        forest.set_patch(1, 2, State::Burning);
        for _ in 0..15 {
            forest.tick();
        }
        forest.patches().to_vec()
    };
    assert_eq!(run(42), run(42));
    assert_eq!(run(7), run(7));
}

#[test]
fn toroidal_three_by_three_burns_out() {
    let mut forest = Forest::with_policy(3, 3, 0, 0, Adjacency::Toroidal, Some(0));
    forest.set_patch(1, 1, State::Burning);
    forest.tick();
    for row in 0..3 {
        for column in 0..3 {
            let expected = if row == 1 && column == 1 { State::Empty } else { State::Burning };
            assert_eq!(cell(&forest, row, column), expected);
        }
    }
    forest.tick();
    assert!(forest.patches().iter().all(|&s| s == State::Empty));
}

#[test]
fn render_writes_one_line_per_row() {
    let mut forest = Forest::new(3, 2, 0, 0);
    forest.set_patch(0, 2, State::Burning);
    forest.set_patch(1, 0, State::Empty);
    assert_eq!(forest.render(), "TTB\nETT\n");
    let single = Forest::new(1, 1, 0, 0);
    assert_eq!(single.render(), "T\n");
}

#[test]
fn patches_are_row_major() {
    let mut forest = Forest::new(3, 2, 0, 0);
    forest.set_patch(1, 2, State::Empty);
    assert_eq!(forest.patches()[5], State::Empty);
    assert_eq!(cell(&forest, 1, 2), State::Empty);
    assert_eq!(forest.get_patch(1, 2), State::Empty);
    assert_eq!(forest.patches().iter().filter(|&&s| s == State::Empty).count(), 1);
}
