use rand::rngs::SmallRng;
use rand::SeedableRng;
use world_gen::erosion::direction::{get_opposite_direction, NEIGHBOURS};
use world_gen::erosion::hydraulic_erosion::HydraulicErosion;
use world_gen::height_map::HeightMap;

const TIME_DELTA: f64 = 0.005;
const FLOW_FACTOR: f64 = 0.005 * 0.001;
const EVAPORATION: f64 = 0.001;
const NEGLIGIBLE: f64 = 1e-5;

#[derive(Clone, Copy, Debug, PartialEq)]
struct Cell {
    terrain: f64,
    water: f64,
    flow: [f64; 4],
}

type Grid = HydraulicErosion<Cell>;

fn seed_cell(height: f64) -> Cell {
    Cell { terrain: height, water: 0.0, flow: [0.0; 4] }
}

fn flat(size: i32, seed: u64) -> Grid {
    let map = HeightMap::filled(size, 1, 0.0f64);
    HydraulicErosion::new(&map, SmallRng::seed_from_u64(seed), seed_cell)
}

fn drop_of_one(cell: &Cell, centre: bool) -> Cell {
    Cell { water: cell.water + if centre { 1.0 } else { 0.25 }, ..*cell }
}

fn outflow(grid: &Grid, pos: [i32; 2]) -> Cell {
    let mut cell = *grid.get_cell(&pos);
    if cell.water > 0.0 {
        let mut sum = 0.0;
        for dir in NEIGHBOURS.iter() {
            let delta = match grid.get_neighbour(&pos, *dir) {
                Some(nb) => cell.terrain + cell.water - nb.terrain - nb.water,
                None => cell.water,
            };
            let flow = f64::max(0.0, cell.flow[dir.index()] + FLOW_FACTOR * delta);
            cell.flow[dir.index()] = flow;
            sum += flow;
        }
        let k = if sum > 0.0 { f64::min(1.0, cell.water / (sum * TIME_DELTA)) } else { 1.0 };
        for flow in cell.flow.iter_mut() {
            *flow *= k;
        }
    }
    cell
}

fn waterflow(grid: &Grid, pos: [i32; 2]) -> Cell {
    let mut cell = *grid.get_cell(&pos);
    let mut delta = 0.0;
    for dir in NEIGHBOURS.iter() {
        if let Some(nb) = grid.get_neighbour(&pos, *dir) {
            delta += nb.flow[get_opposite_direction(*dir).index()] - cell.flow[dir.index()];
        }
    }
    // a change too small to matter is dropped
    let change = TIME_DELTA * delta;
    if change.abs() > NEGLIGIBLE {
        cell.water = f64::max(0.0, cell.water + change);
    }
    cell
}

fn unchanged(grid: &Grid, pos: [i32; 2]) -> Cell {
    *grid.get_cell(&pos)
}

fn evaporation(grid: &Grid, pos: [i32; 2]) -> Cell {
    let mut cell = *grid.get_cell(&pos);
    cell.water *= f64::max(0.0, 1.0 - EVAPORATION * TIME_DELTA);
    cell
}

fn tick(grid: Grid) -> Grid {
    let mut grid = grid;
    grid.tick(outflow, waterflow, unchanged, unchanged, unchanged, evaporation);
    grid
}

fn holds_water(cell: &Cell) -> bool {
    cell.water > 0.0
}

fn water_of(grid: &Grid) -> Vec<f64> {
    let size = grid.get_size();
    let mut all = Vec::new();
    for y in 0..size {
        for x in 0..size {
            all.push(grid.get_cell(&[x, y]).water);
        }
    }
    all
}

#[test]
fn one_drop_and_one_tick_on_flat_ground() {
    let mut grid = flat(4, 2024);
    let pos = grid.add_water_drop(&drop_of_one);
    let grid = tick(grid);
    for y in 0..4 {
        for x in 0..4 {
            let distance = (x - pos[0]).abs() + (y - pos[1]).abs();
            let water = grid.get_cell(&[x, y]).water;
            if distance <= 1 {
                assert!(water > 0.0, "cell {}/{} is dry", x, y);
            } else {
                assert_eq!(water, 0.0, "cell {}/{} is wet", x, y);
            }
        }
    }
}

#[test]
fn one_drop_at_the_border_and_one_tick() {
    let mut grid = flat(4, 1);
    grid.add_water_drop_at(&[0, 2], &drop_of_one);
    let grid = tick(grid);
    let water = water_of(&grid);
    for y in 0..4 {
        for x in 0..4 {
            let near = (x == 0 && (1..=3).contains(&y)) || (x == 1 && y == 2);
            assert_eq!(water[(4 * y + x) as usize] > 0.0, near, "cell {}/{}", x, y);
        }
    }
    // nothing has wrapped round to the opposite border
    assert_eq!(grid.get_cell(&[3, 2]).water, 0.0);
    assert_eq!(grid.get_cell(&[3, 1]).water, 0.0);
}

#[test]
fn water_does_not_grow_without_rain() {
    let mut grid = flat(8, 99);
    grid.rain(12, &drop_of_one);
    let mut total: f64 = water_of(&grid).iter().sum();
    for _ in 0..200 {
        grid = tick(grid);
        let water = water_of(&grid);
        assert!(water.iter().all(|w| w.is_finite() && *w >= 0.0));
        for y in 0..8 {
            for x in 0..8 {
                assert!(grid.get_cell(&[x, y]).flow.iter().all(|f| f.is_finite() && *f >= 0.0));
            }
        }
        let now: f64 = water.iter().sum();
        assert!(now <= total + 1e-12);
        total = now;
    }
}

#[test]
fn same_seed_gives_the_same_terrain() {
    let run = |seed: u64| {
        let mut grid = flat(8, seed);
        grid.rain(20, &drop_of_one);
        let grid = grid.simulate(50, &holds_water, &tick);
        (water_of(&grid), grid.create_heightmap(|cell: &Cell| cell.terrain))
    };
    let (first_water, first_map) = run(7);
    let (second_water, second_map) = run(7);
    assert_eq!(first_water, second_water);
    for y in 0..8 {
        for x in 0..8 {
            assert_eq!(first_map.get(&[x, y]), second_map.get(&[x, y]));
        }
    }
}

#[test]
fn rain_falls_on_more_than_one_cell() {
    let mut grid = flat(16, 3);
    let mut seen = Vec::new();
    for _ in 0..50 {
        let pos = grid.get_random_pos();
        if !seen.contains(&pos) {
            seen.push(pos);
        }
    }
    assert!(seen.len() > 1);
    assert!(seen.iter().any(|p| p[0] != p[1]));
}
