use playground::animals::{Animal, Bat, Cow, Fish};
use playground::cbool::AsCBool;
use playground::chessboard::ChessBoard;
use playground::conway::{self, ConwaySim, Universe};
use playground::facts::{affects_profit, minitrue_step, to_alt_fact, Message};
use playground::grids::{format_grid_to, format_vec_grid_to};
use playground::hemisphere::Hemisphere;
use playground::planets::{which, Planets};
use playground::turtle::{explore_norman_turtle, Turtle};

#[test]
fn turtle_starts_where_placed() {
    let t = Turtle::at(3, -2);
    assert_eq!(t.position(), (3, -2));
    assert_eq!(Turtle::default().position(), (0, 0));
}

#[test]
fn turtle_steps_one_cell_at_a_time() {
    let mut t = Turtle::default();
    t.up();
    assert_eq!(t.position(), (0, -1));
    t.right();
    assert_eq!(t.position(), (1, -1));
    t.down();
    t.down();
    assert_eq!(t.position(), (1, 1));
    t.left();
    assert_eq!(t.position(), (0, 1));
}

#[test]
fn norman_walk_reports_every_position() {
    let trail = explore_norman_turtle();
    assert_eq!(
        trail,
        vec![(0, 0), (0, -1), (1, -1), (1, 0), (1, 1), (0, 1)]
    );
}

#[test]
fn chessboard_renders_the_starting_position() {
    let board = ChessBoard::at_start();
    let expected = "[r][n][b][q][k][b][n][r]\n\
                    [p][p][p][p][p][p][p][p]\n\
                    [ ][ ][ ][ ][ ][ ][ ][ ]\n\
                    [ ][ ][ ][ ][ ][ ][ ][ ]\n\
                    [ ][ ][ ][ ][ ][ ][ ][ ]\n\
                    [ ][ ][ ][ ][ ][ ][ ][ ]\n\
                    [P][P][P][P][P][P][P][P]\n\
                    [R][N][B][Q][K][B][N][R]\n";
    assert_eq!(board.render(), expected);
}

#[test]
fn chessboard_blank_is_all_spaces() {
    let board = ChessBoard::blank();
    let empty_row = "[ ][ ][ ][ ][ ][ ][ ][ ]\n";
    assert_eq!(board.render(), empty_row.repeat(8));
}

#[test]
fn chessboard_reset_restores_the_start() {
    let mut board = ChessBoard::new([['x'; 8]; 8]);
    board.reset();
    assert_eq!(board.render(), ChessBoard::at_start().render());
}

#[test]
fn grid_formatting_brackets_every_cell() {
    let grid = [['a', 'b', 'c'], ['d', 'e', 'f']];
    assert_eq!(format_grid_to(&grid), "[a][b][c]\n[d][e][f]\n");
}

#[test]
fn vec_grid_formatting_allows_ragged_rows() {
    let grid = vec![vec!['x', 'y'], vec![], vec!['z']];
    assert_eq!(format_vec_grid_to(&grid), "[x][y]\n\n[z]\n");
}

#[test]
fn universe_starts_dead_and_keeps_its_size() {
    let u = Universe::new(4, 3);
    assert_eq!(u.dimensions(), (4, 3));
    for r in 0..3 {
        for c in 0..4 {
            assert!(!u.get(r, c));
        }
    }
}

#[test]
fn universe_set_and_get_agree() {
    let mut u = Universe::new(5, 5);
    u.set(2, 3, true);
    assert!(u.get(2, 3));
    assert!(!u.get(3, 2));
    u.set(2, 3, false);
    assert!(!u.get(2, 3));
}

#[test]
fn blinker_oscillates_and_the_view_lags_one_step() {
    let mut seed = Universe::new(5, 5);
    seed.set(2, 1, true);
    seed.set(2, 2, true);
    seed.set(2, 3, true);
    let horizontal = [(2usize, 1usize), (2, 2), (2, 3)];
    let vertical = [(1usize, 2usize), (2, 2), (3, 2)];

    let mut sim = conway::from_seed(seed);
    let shows = |u: &Universe, live: &[(usize, usize)]| {
        for r in 0..5 {
            for c in 0..5 {
                assert_eq!(u.get(r, c), live.contains(&(r, c)), "cell ({}, {})", r, c);
            }
        }
    };
    // Before any step the observable universe is the seed copy.
    shows(sim.universe(), &horizontal);
    // The universe handed out lags one generation behind the front buffer.
    sim.next();
    shows(sim.universe(), &horizontal);
    sim.next();
    shows(sim.universe(), &vertical);
    sim.next();
    shows(sim.universe(), &horizontal);
}

#[test]
fn universe_renders_with_margins_and_pipes() {
    let mut u = Universe::new(4, 2);
    u.set(0, 1, true);
    u.set(1, 3, true);
    assert_eq!(u.render(), " ----\n| +  |\n|   +|\n ----\n");
}

#[test]
fn random_simulation_has_the_requested_size() {
    let sim = conway::random(7, 4);
    assert_eq!(sim.universe().dimensions(), (7, 4));
}

#[test]
fn randomly_seeded_universe_has_the_requested_size() {
    let u = Universe::randomly_seeded(6, 2);
    assert_eq!(u.dimensions(), (6, 2));
}

#[test]
fn seeding_keeps_the_shape() {
    let mut u = Universe::new(3, 3);
    u.seed(100);
    assert_eq!(u.dimensions(), (3, 3));
    for r in 0..3 {
        for c in 0..3 {
            let _ = u.get(r, c);
        }
    }
}

#[test]
fn index_wrapping_walks_the_ring() {
    assert_eq!(conway::inc_index_wrapping(0, 5), 1);
    assert_eq!(conway::inc_index_wrapping(4, 5), 0);
    assert_eq!(conway::dec_index_wrapping(0, 5), 4);
    assert_eq!(conway::dec_index_wrapping(3, 5), 2);
}

#[test]
fn simulation_from_fresh_universe_stays_dead() {
    let mut sim = ConwaySim::new(Universe::new(3, 3));
    sim.next();
    sim.next();
    let u = sim.universe();
    for r in 0..3 {
        for c in 0..3 {
            assert!(!u.get(r, c));
        }
    }
}

#[test]
fn terraforming_renames_every_planet() {
    let mut p = Planets::new(vec!["Mercury".to_string(), "Venus".to_string()]);
    p.terraform();
    assert_eq!(p.len(), 2);
    assert_eq!(p.name_at(0), "Mercury Nova");
    assert_eq!(p.name_at(1), "Venus Nova");
}

#[test]
fn which_simulates_a_runtime_value() {
    assert_eq!(which(), 8);
}

#[test]
fn hemisphere_abbreviations() {
    assert_eq!(Hemisphere::NORTH.abbreviation(), 'N');
    assert_eq!(Hemisphere::EAST.abbreviation(), 'E');
    assert_eq!(Hemisphere::SOUTH.abbreviation(), 'S');
    assert_eq!(Hemisphere::WEST.abbreviation(), 'W');
}

#[test]
fn c_style_truthiness() {
    assert!(75u32.cbool());
    assert!(!0u8.cbool());
    assert!((-3i64).cbool());
    assert!(!0isize.cbool());
    assert!(1u128.cbool());
    assert!(i16::MIN.cbool());
}

#[test]
fn ministry_amends_climate_facts() {
    let fact = "we probably, maybe, should take climate change a bit more seriously.";
    let amended = to_alt_fact(fact.to_string());
    let suffix = " Climate change is not real; if it is real it is not man made; \
                   the best action is inaction anyway.";
    assert_eq!(amended, format!("{}{}", fact, suffix));
}

#[test]
fn ministry_suppresses_unprofitable_facts() {
    let fact = "study finds tobacco can cause lung cancer";
    assert!(affects_profit(fact));
    assert!(minitrue_step(Message::Fact(fact.to_string())).is_none());
}

#[test]
fn ministry_passes_harmless_facts_and_the_stop_signal() {
    let fact = "rainbows and unicorns everwhere. consume! consume!";
    match minitrue_step(Message::Fact(fact.to_string())) {
        Some(Message::Fact(published)) => assert_eq!(published, fact),
        _ => panic!("a harmless fact must pass through"),
    }
    assert!(matches!(minitrue_step(Message::Stop), Some(Message::Stop)));
}

#[test]
fn animals_say_and_eat() {
    let cow = Cow {};
    let fish = Fish {};
    let bat = Bat {};
    assert_eq!(cow.name(), "Cow");
    assert_eq!(cow.say(), "moo");
    assert_eq!(cow.eat(), "grass");
    assert_eq!(fish.name(), "Fish");
    assert_eq!(fish.say(), "blub");
    assert_eq!(fish.eat(), "krill");
    assert_eq!(bat.name(), "Bat");
    assert_eq!(bat.say(), "click");
    assert_eq!(bat.eat(), "moth");
}
