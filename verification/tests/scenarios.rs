use falling_sand::grid::{grid_cell, Cell};
use falling_sand::particle::{Activity, Color, Particle};
use falling_sand::physics::{collapse_candidates, fall_or_settle, tick};

fn sand(x: i32, y: i32) -> Particle {
    Particle::new(x, y, Color { red: 750, green: 650, blue: 150 })
}

fn stack(x: i32, height: i32) -> Vec<Particle> {
    let mut particles = Vec::new();
    let mut row = 0;
    while row < height {
        particles.push(sand(x, -300 + 5 * row));
        row += 1;
    }
    particles
}

fn run(particles: &mut Vec<Particle>, ticks: u32) {
    let mut done = 0;
    while done < ticks {
        tick(particles);
        done += 1;
    }
}

#[test]
fn a_particle_falls_to_the_ground_in_fifty_ticks_and_rests() {
    let mut particles = vec![sand(0, 0)];
    run(&mut particles, 49);
    assert_eq!(particles[0].y, -294);
    run(&mut particles, 1);
    assert_eq!(particles[0].y, -300);
    assert_eq!(particles[0].y, 0 - 50 * 6);
    run(&mut particles, 1);
    assert_eq!(particles, vec![sand(0, -300)]);
    run(&mut particles, 100);
    assert_eq!(particles, vec![sand(0, -300)]);
}

#[test]
fn every_tick_of_a_free_fall_is_one_step() {
    let mut particles = vec![sand(17, 0)];
    let mut ticks = 1;
    while ticks <= 50 {
        tick(&mut particles);
        assert_eq!(particles[0].y, -6 * ticks);
        assert_eq!(particles[0].x, 17);
        ticks += 1;
    }
}

#[test]
fn a_second_particle_settles_one_cell_above_the_first() {
    let mut particles = vec![sand(0, -288), sand(0, -270)];
    run(&mut particles, 2);
    assert_eq!(particles, vec![sand(0, -300), sand(0, -282)]);
    run(&mut particles, 1);
    assert_eq!(particles, vec![sand(0, -300), sand(0, -288)]);
    run(&mut particles, 2);
    assert_eq!(particles, vec![sand(0, -300), sand(0, -294)]);
    let first = grid_cell(particles[0].x, particles[0].y);
    let second = grid_cell(particles[1].x, particles[1].y);
    assert_eq!(first, Cell { x: 0, y: -60 });
    assert_eq!(second, Cell { x: first.x, y: first.y + 1 });
    run(&mut particles, 50);
    assert_eq!(particles, vec![sand(0, -300), sand(0, -294)]);
}

#[test]
fn a_particle_spawned_later_lands_on_the_one_at_rest() {
    let mut particles = vec![sand(0, 0)];
    run(&mut particles, 60);
    assert_eq!(particles, vec![sand(0, -300)]);
    particles.push(sand(0, 0));
    run(&mut particles, 48);
    assert_eq!(particles, vec![sand(0, -300), sand(0, -288)]);
    run(&mut particles, 1);
    assert_eq!(particles, vec![sand(0, -300), sand(0, -294)]);
    run(&mut particles, 30);
    assert_eq!(particles, vec![sand(0, -300), sand(0, -294)]);
}

#[test]
fn the_top_of_a_stack_of_ten_collapses() {
    let mut particles = stack(0, 10);
    tick(&mut particles);
    let mut expected = stack(0, 10);
    expected[9] = sand(0, -257);
    assert_eq!(particles, expected);
    assert_eq!(particles[9].y, -255 - 2);
    assert_eq!(particles[9].activity, Activity::Moving);
}

#[test]
fn a_collapsed_top_is_evaluated_again_on_the_next_tick() {
    let mut particles = stack(0, 10);
    run(&mut particles, 2);
    assert_eq!(particles[9], sand(0, -259));
    run(&mut particles, 1);
    let mut expected = stack(0, 10);
    expected[9] = sand(0, -259);
    assert_eq!(particles, expected);
    let occupied = fall_or_settle(&mut particles);
    assert_eq!(occupied.occupant(Cell { x: 0, y: -52 }), Some(9));
    assert_eq!(occupied.occupant(Cell { x: 0, y: -51 }), None);
    assert_eq!(collapse_candidates(&particles, &occupied), Vec::<usize>::new());
    run(&mut particles, 40);
    assert_eq!(particles, expected);
}

#[test]
fn a_stack_of_nine_does_not_collapse() {
    let mut particles = stack(0, 9);
    run(&mut particles, 25);
    assert_eq!(particles, stack(0, 9));
}

#[test]
fn a_stack_of_ten_with_a_neighbour_at_its_top_does_not_collapse() {
    let mut particles = stack(0, 10);
    particles.extend(stack(5, 10));
    let before = particles.clone();
    run(&mut particles, 1);
    assert_eq!(particles, before);
    run(&mut particles, 30);
    assert_eq!(particles, before);
}

#[test]
fn a_neighbour_on_the_left_holds_the_top_as_one_on_the_right_does() {
    let mut particles = stack(0, 10);
    particles.extend(stack(-5, 10));
    let before = particles.clone();
    run(&mut particles, 30);
    assert_eq!(particles, before);
}

#[test]
fn a_neighbour_below_the_top_does_not_hold_it() {
    let mut particles = stack(0, 10);
    particles.extend(stack(5, 9));
    tick(&mut particles);
    let mut expected = stack(0, 10);
    expected.extend(stack(5, 9));
    expected[9] = sand(0, -257);
    assert_eq!(particles, expected);
}

#[test]
fn stacks_two_columns_apart_collapse_each_on_its_own() {
    let mut particles = stack(0, 10);
    particles.extend(stack(10, 11));
    tick(&mut particles);
    let mut expected = stack(0, 10);
    expected.extend(stack(10, 11));
    expected[9] = sand(0, -257);
    expected[19] = sand(10, -257);
    expected[20] = sand(10, -252);
    assert_eq!(particles, expected);
}

#[test]
fn a_particle_in_flight_is_no_lateral_support() {
    let mut particles = stack(0, 10);
    particles.push(sand(5, -255));
    tick(&mut particles);
    let mut expected = stack(0, 10);
    expected[9] = sand(0, -257);
    expected.push(sand(5, -261));
    assert_eq!(particles, expected);
}

#[test]
fn a_particle_below_the_ground_moves_only_when_its_column_collapses() {
    let mut particles = Vec::new();
    let mut row = 0;
    while row < 10 {
        particles.push(sand(0, -345 + 5 * row));
        row += 1;
    }
    let mut expected = particles.clone();
    tick(&mut particles);
    expected[9] = sand(0, -302);
    assert_eq!(particles, expected);
    tick(&mut particles);
    expected[9] = sand(0, -304);
    assert_eq!(particles, expected);
    run(&mut particles, 50);
    assert_eq!(particles, expected);
}

#[test]
fn particles_at_rest_on_the_ground_never_move_again() {
    let mut particles = vec![sand(0, -300), sand(5, -300), sand(10, -300), sand(15, -317)];
    particles.push(sand(5, 0));
    let before = particles.clone();
    let mut ticks = 0;
    while ticks < 120 {
        tick(&mut particles);
        assert_eq!(particles[0..4], before[0..4]);
        ticks += 1;
    }
    assert_eq!(particles[4], sand(5, -294));
}
