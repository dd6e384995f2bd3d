use roguelike::{
    next_axis, DiscoveredMap, Game, Rect, Tile, TileAction, Vec2, CORRIDOR, DOOR_CLOSED, DOOR_OPEN,
    EMPTY, FLOOR, RECS_PER_LEVEL, SCREEN_H, SCREEN_W, STAIRS_DOWN, WALL_HORIZONTAL, WALL_VERTICAL,
};
use std::collections::VecDeque;

fn tile(collidable: bool, ch: &str, action: TileAction) -> Tile {
    Tile { collidable, char: ch.to_string(), ri_action: action }
}

fn tile_table() -> Vec<Tile> {
    vec![
        tile(true, " ", TileAction::Nothing),
        Tile::default(),
        tile(false, "#", TileAction::Nothing),
        tile(true, "|", TileAction::Nothing),
        tile(true, "-", TileAction::Nothing),
        tile(true, "+", TileAction::OpenDoor),
        tile(false, "/", TileAction::CloseDoor),
        tile(false, ">", TileAction::Descend),
    ]
}

fn empty_game(w: usize, h: usize) -> Game {
    Game {
        x: 0,
        y: 0,
        running: true,
        map: vec![vec![EMPTY; w]; h],
        tile_index: tile_table(),
        discovered: DiscoveredMap::new(w as i32, h as i32),
    }
}

fn passable(c: i32) -> bool {
    c != EMPTY && c != WALL_VERTICAL && c != WALL_HORIZONTAL
}

fn reachable(g: &Game, from: (i32, i32), to: (i32, i32)) -> bool {
    let h = g.map.len();
    let w = g.map[0].len();
    let mut seen = vec![vec![false; w]; h];
    let mut queue = VecDeque::new();
    if !passable(g.get_map_tile_id(from.0, from.1)) {
        return false;
    }
    seen[from.1 as usize][from.0 as usize] = true;
    queue.push_back(from);
    while let Some((x, y)) = queue.pop_front() {
        if (x, y) == to {
            return true;
        }
        for (dx, dy) in [(1, 0), (-1, 0), (0, 1), (0, -1)] {
            let (nx, ny) = (x + dx, y + dy);
            if nx < 0 || ny < 0 || nx as usize >= w || ny as usize >= h {
                continue;
            }
            if !seen[ny as usize][nx as usize] && passable(g.get_map_tile_id(nx, ny)) {
                seen[ny as usize][nx as usize] = true;
                queue.push_back((nx, ny));
            }
        }
    }
    false
}

#[test]
fn random_rooms_keep_margin() {
    for _ in 0..2000 {
        let r = Rect::random(4, 2, 10, 10);
        assert!(r.x >= 1 && r.x + r.w < SCREEN_W);
        assert!(r.y >= 1 && r.y + r.h < SCREEN_H);
        assert!(r.w >= 4 && r.w < 10);
        assert!(r.h >= 2 && r.h < 10);
    }
}

#[test]
fn random_rooms_cut_to_the_map() {
    for _ in 0..500 {
        let r = Rect::random(40, 20, 100, 100);
        assert!(r.w >= 40 && r.w <= SCREEN_W - 2);
        assert!(r.h >= 20 && r.h <= SCREEN_H - 2);
        assert!(r.x >= 1 && r.x + r.w < SCREEN_W);
        assert!(r.y >= 1 && r.y + r.h < SCREEN_H);
    }
}

#[test]
fn carve_sets_footprint_only() {
    let mut g = empty_game(10, 6);
    g.map[0][0] = 9;
    g.carve(FLOOR, &Rect { x: 2, y: 1, w: 3, h: 2 });
    for y in 0..6 {
        for x in 0..10 {
            let inside = (2..5).contains(&x) && (1..3).contains(&y);
            let expected = if inside { FLOOR } else if (x, y) == (0, 0) { 9 } else { EMPTY };
            assert_eq!(g.map[y][x], expected);
        }
    }
}

#[test]
fn carve_twice_is_carve_once() {
    let mut g = empty_game(10, 6);
    g.map[2][3] = WALL_VERTICAL;
    g.map[4][4] = CORRIDOR;
    let r = Rect { x: 1, y: 1, w: 5, h: 3 };
    g.carve(FLOOR, &r);
    let once = g.map.clone();
    g.carve(FLOOR, &r);
    assert_eq!(g.map, once);
    assert_eq!(g.map[2][3], FLOOR);
    assert_eq!(g.map[4][4], CORRIDOR);
}

#[test]
fn carve_clips_at_the_map_edge() {
    let mut g = empty_game(5, 4);
    g.carve(FLOOR, &Rect { x: 3, y: 2, w: 10, h: 10 });
    assert_eq!(g.map[2][3], FLOOR);
    assert_eq!(g.map[3][4], FLOOR);
    assert_eq!(g.map[1][3], EMPTY);
    assert_eq!(g.map.len(), 4);
    assert!(g.map.iter().all(|row| row.len() == 5));
}

#[test]
fn walls_surround_room() {
    let mut g = empty_game(10, 8);
    let r = Rect { x: 2, y: 2, w: 4, h: 3 };
    g.carve_walls(&r);
    for x in 1..=6 {
        assert_eq!(g.map[1][x], WALL_HORIZONTAL);
        assert_eq!(g.map[5][x], WALL_HORIZONTAL);
    }
    for y in 2..5 {
        assert_eq!(g.map[y][1], WALL_VERTICAL);
        assert_eq!(g.map[y][6], WALL_VERTICAL);
        for x in 2..6 {
            assert_eq!(g.map[y][x], EMPTY);
        }
    }
}

#[test]
fn walls_never_overwrite_filled_cells() {
    let mut g = empty_game(10, 8);
    g.map[1][3] = CORRIDOR;
    g.map[3][6] = FLOOR;
    g.map[5][1] = DOOR_OPEN;
    let before = g.map.clone();
    g.carve_walls(&Rect { x: 2, y: 2, w: 4, h: 3 });
    for y in 0..8 {
        for x in 0..10 {
            if before[y][x] != EMPTY {
                assert_eq!(g.map[y][x], before[y][x]);
            }
        }
    }
    assert_eq!(g.map[1][2], WALL_HORIZONTAL);
}

#[test]
fn tunnel_on_one_row_is_straight() {
    let mut g = empty_game(12, 4);
    g.carve_tunnels(Vec2 { x: 1, y: 1 }, Vec2 { x: 8, y: 1 }, CORRIDOR, true);
    for x in 0..12 {
        let expected = if (2..=8).contains(&x) { CORRIDOR } else { EMPTY };
        assert_eq!(g.map[1][x], expected);
    }
    assert!(g.map[0].iter().all(|&c| c == EMPTY));
}

#[test]
fn tunnel_turns_walls_into_doors() {
    let mut g = empty_game(12, 4);
    g.map[1][5] = WALL_VERTICAL;
    g.map[1][3] = WALL_HORIZONTAL;
    g.map[1][6] = FLOOR;
    g.carve_tunnels(Vec2 { x: 1, y: 1 }, Vec2 { x: 8, y: 1 }, CORRIDOR, false);
    assert_eq!(g.map[1][3], DOOR_CLOSED);
    assert_eq!(g.map[1][5], DOOR_CLOSED);
    assert_eq!(g.map[1][6], CORRIDOR);
    assert_eq!(g.map[1][2], CORRIDOR);
    assert_eq!(g.map[1][8], CORRIDOR);
    assert_eq!(g.map[1][1], EMPTY);
}

#[test]
fn tunnel_back_over_a_wall_start_leaves_a_door() {
    let mut g = empty_game(SCREEN_W as usize, SCREEN_H as usize);
    g.map[5][5] = WALL_VERTICAL;
    g.map[5][4] = WALL_HORIZONTAL;
    g.carve_tunnels(Vec2 { x: 5, y: 5 }, Vec2 { x: 4, y: 5 }, CORRIDOR, false);
    assert_eq!(g.map[5][6], CORRIDOR);
    assert_eq!(g.map[5][5], DOOR_CLOSED);
    assert_eq!(g.map[5][4], DOOR_CLOSED);
}

#[test]
fn tunnel_down_one_column() {
    let mut g = empty_game(SCREEN_W as usize, SCREEN_H as usize);
    for r in [Rect { x: 2, y: 2, w: 4, h: 2 }, Rect { x: 2, y: 10, w: 4, h: 2 }] {
        g.carve_walls(&r);
        g.carve(FLOOR, &r);
    }
    let before = g.map.clone();
    g.carve_tunnels(Vec2 { x: 2, y: 2 }, Vec2 { x: 2, y: 10 }, CORRIDOR, true);
    assert_eq!(g.map[4][2], DOOR_CLOSED);
    assert_eq!(g.map[9][2], DOOR_CLOSED);
    for y in 5..=8 {
        assert_eq!(g.map[y][2], CORRIDOR);
    }
    for y in 0..SCREEN_H as usize {
        for x in 0..SCREEN_W as usize {
            if x != 2 || !(4..=9).contains(&y) {
                assert_eq!(g.map[y][x], before[y][x]);
            }
        }
    }
}

#[test]
fn tunnel_with_an_end_off_the_map_digs_nothing() {
    let mut g = empty_game(10, 5);
    let before = g.map.clone();
    g.carve_tunnels(Vec2 { x: 2, y: 2 }, Vec2 { x: 12, y: 2 }, CORRIDOR, true);
    assert_eq!(g.map, before);
    g.carve_tunnels(Vec2 { x: 9, y: 2 }, Vec2 { x: 1, y: 2 }, CORRIDOR, true);
    assert_eq!(g.map, before);
    g.carve_tunnels(Vec2 { x: -1, y: 2 }, Vec2 { x: 1, y: 2 }, CORRIDOR, true);
    assert_eq!(g.map, before);
    g.carve_tunnels(Vec2 { x: 3, y: 1 }, Vec2 { x: 1, y: -4 }, CORRIDOR, true);
    assert_eq!(g.map, before);
}

#[test]
fn tunnel_keeps_filled_cells_when_asked() {
    let mut g = empty_game(12, 4);
    g.map[1][6] = FLOOR;
    g.map[1][4] = WALL_VERTICAL;
    g.carve_tunnels(Vec2 { x: 1, y: 1 }, Vec2 { x: 8, y: 1 }, CORRIDOR, true);
    assert_eq!(g.map[1][6], FLOOR);
    assert_eq!(g.map[1][4], DOOR_CLOSED);
    assert_eq!(g.map[1][5], CORRIDOR);
}

#[test]
fn tunnel_reaches_its_end_within_bound() {
    for _ in 0..300 {
        let mut g = empty_game(SCREEN_W as usize, SCREEN_H as usize);
        let s = Vec2 { x: 3, y: 20 };
        let e = Vec2 { x: 30, y: 4 };
        g.carve_tunnels(s, e, CORRIDOR, true);
        let marked: Vec<(usize, usize)> = (0..SCREEN_H as usize)
            .flat_map(|y| (0..SCREEN_W as usize).map(move |x| (x, y)))
            .filter(|&(x, y)| g.map[y][x] == CORRIDOR)
            .collect();
        let dist = ((s.x - e.x).abs() + (s.y - e.y).abs()) as usize;
        assert!(marked.len() <= dist + 2);
        assert!(marked.len() >= dist);
        for &(x, y) in &marked {
            assert!(x >= 3 && x <= 30 && y >= 4 && y <= 20);
        }
        assert_eq!(g.map[4][30], CORRIDOR);
        let next_to_end = [(29usize, 4usize), (30, 5)];
        assert!(next_to_end.iter().any(|&(x, y)| g.map[y][x] == CORRIDOR));
        assert_eq!(g.map[20][3], EMPTY);
        assert_eq!(g.map[20][4], CORRIDOR);
        assert_eq!(g.map[20][5], CORRIDOR);
    }
}

#[test]
fn tunnel_back_onto_its_start() {
    let mut g = empty_game(6, 3);
    g.carve_tunnels(Vec2 { x: 2, y: 1 }, Vec2 { x: 2, y: 1 }, CORRIDOR, true);
    assert_eq!(g.map[1][2], CORRIDOR);
    assert_eq!(g.map[1][3], CORRIDOR);
    assert_eq!(g.map[1][1], EMPTY);
}

#[test]
fn axis_draws() {
    assert!(!next_axis(true, 0));
    assert!(next_axis(false, 1));
    assert!(next_axis(true, 2));
    assert!(!next_axis(false, 5));
}

#[test]
fn one_small_room_level() {
    let mut g = empty_game(3, 3);
    let r = Rect { x: 10, y: 7, w: 4, h: 2 };
    g.build_level(&vec![r]);
    assert_eq!(g.map.len(), SCREEN_H as usize);
    assert!(g.map.iter().all(|row| row.len() == SCREEN_W as usize));
    assert_eq!((g.x, g.y), (11, 8));
    assert_eq!(g.map[8][11], STAIRS_DOWN);
    let mut floors = 0;
    for y in 0..SCREEN_H as usize {
        for x in 0..SCREEN_W as usize {
            let c = g.map[y][x];
            assert_ne!(c, CORRIDOR);
            if c == FLOOR || c == STAIRS_DOWN {
                floors += 1;
                assert!((10..14).contains(&x) && (7..9).contains(&y));
            }
        }
    }
    assert_eq!(floors, 8);
    assert_eq!(g.map[6][9], WALL_HORIZONTAL);
    assert_eq!(g.map[7][9], WALL_VERTICAL);
    assert!(g.discovered.content.iter().flatten().all(|&d| !d));
}

#[test]
fn two_fixed_rooms_are_joined() {
    let mut g = empty_game(1, 1);
    let a = Rect { x: 2, y: 2, w: 4, h: 3 };
    let b = Rect { x: 20, y: 2, w: 5, h: 3 };
    g.build_level(&vec![a, b]);
    assert_eq!((g.x, g.y), (3, 3));
    assert_eq!(g.map[3][21], STAIRS_DOWN);
    assert_eq!(g.map[2][6], DOOR_CLOSED);
    for x in 7..=19 {
        assert_eq!(g.map[2][x], CORRIDOR);
    }
    for x in 2..=5 {
        assert_eq!(g.map[2][x], FLOOR);
    }
    for x in 20..=24 {
        assert_eq!(g.map[2][x], FLOOR);
    }
    assert_eq!(g.map[2][25], WALL_VERTICAL);
    assert!(reachable(&g, (3, 3), (21, 3)));
}

#[test]
fn generated_levels_are_connected() {
    let mut g = empty_game(1, 1);
    for _ in 0..300 {
        g.generate_level();
        assert_eq!(g.map.len(), SCREEN_H as usize);
        let stairs: Vec<(i32, i32)> = (0..SCREEN_H)
            .flat_map(|y| (0..SCREEN_W).map(move |x| (x, y)))
            .filter(|&(x, y)| g.get_map_tile_id(x, y) == STAIRS_DOWN)
            .collect();
        assert_eq!(stairs.len(), 1);
        assert_eq!(g.get_map_tile_id(g.x, g.y), if stairs[0] == (g.x, g.y) { STAIRS_DOWN } else { FLOOR });
        assert!(reachable(&g, (g.x, g.y), stairs[0]));
    }
    assert_eq!(RECS_PER_LEVEL, 5);
}

#[test]
fn off_map_reads_are_empty() {
    let g = empty_game(4, 3);
    assert_eq!(g.get_map_tile_id(-1, 0), EMPTY);
    assert_eq!(g.get_map_tile_id(0, -1), EMPTY);
    assert_eq!(g.get_map_tile_id(4, 0), EMPTY);
    assert_eq!(g.get_map_tile_id(0, 3), EMPTY);
}

#[test]
fn discovered_map_starts_blank() {
    let d = DiscoveredMap::new(5, 3);
    assert_eq!(d.content.len(), 3);
    assert!(d.content.iter().all(|row| row.len() == 5 && row.iter().all(|&c| !c)));
    assert!(DiscoveredMap::new(-2, 4).content.iter().all(|row| row.is_empty()));
    assert!(DiscoveredMap::new(3, -1).content.is_empty());
}

#[test]
fn discover_around_reveals_radius_two() {
    let mut d = DiscoveredMap::new(10, 8);
    d.discover_around(Vec2 { x: 1, y: 6 });
    for y in 0..8i32 {
        for x in 0..10i32 {
            let near = (x - 1).abs() <= 2 && (y - 6).abs() <= 2;
            assert_eq!(d.content[y as usize][x as usize], near);
        }
    }
    d.discover_around(Vec2 { x: i32::MIN, y: i32::MAX });
    assert_eq!(d.content.iter().flatten().filter(|&&c| c).count(), 4 * 4);
}

#[test]
fn walking_and_bumping() {
    let mut g = empty_game(6, 4);
    g.map[1][1] = FLOOR;
    g.map[1][2] = FLOOR;
    g.map[1][3] = DOOR_CLOSED;
    g.x = 1;
    g.y = 1;
    g.try_move(2, 1);
    assert_eq!((g.x, g.y), (2, 1));
    g.try_move(3, 1);
    assert_eq!((g.x, g.y), (2, 1));
    assert_eq!(g.map[1][3], DOOR_OPEN);
    g.try_move(3, 1);
    assert_eq!((g.x, g.y), (3, 1));
    g.try_move(3, 0);
    assert_eq!((g.x, g.y), (3, 1));
    g.try_move(-1, 1);
    assert_eq!((g.x, g.y), (3, 1));
}

#[test]
fn door_actions() {
    let mut g = empty_game(6, 4);
    g.map[2][2] = DOOR_OPEN;
    g.interact_at(2, 2);
    assert_eq!(g.map[2][2], DOOR_CLOSED);
    g.interact_at(2, 2);
    assert_eq!(g.map[2][2], DOOR_OPEN);
    g.map[0][0] = 42;
    let before = g.map.clone();
    g.interact_at(0, 0);
    assert_eq!(g.map, before);
    let t = tile(true, "+", TileAction::OpenDoor);
    t.interact(&mut g, 4, 3);
    assert_eq!(g.map[3][4], DOOR_OPEN);
    t.interact(&mut g, 40, 30);
    assert_eq!(g.map.len(), 4);
}

#[test]
fn stairs_lead_to_a_new_level() {
    let mut g = empty_game(6, 4);
    g.map[1][1] = STAIRS_DOWN;
    g.x = 1;
    g.y = 1;
    g.interact_at(1, 1);
    assert_eq!(g.map.len(), SCREEN_H as usize);
    assert_eq!(g.get_map_tile_id(g.x, g.y), FLOOR);
    let seen = g.discovered.content.iter().flatten().filter(|&&c| c).count();
    assert_eq!(seen, 25);
    assert!(g.discovered.content[g.y as usize][g.x as usize]);
}

#[test]
fn default_tile_is_plain_floor() {
    let t = Tile::default();
    assert!(!t.collidable);
    assert_eq!(t.char, ".");
    assert_eq!(t.ri_action, TileAction::Nothing);
    let g = empty_game(3, 3);
    assert_eq!(g.get_map_tile(1, 1).char, " ");
}
