use river_raid::{Cell, DesignLine, Kind, Scene, generate_line, generate_with_height,
    percent_to_terminal_size};

fn design(land1: u32, river1: u32, land2: u32, river2: u32, land3: u32, part_height: usize) -> DesignLine {
    DesignLine { land1, river1, land2, river2, land3, part_height }
}

fn kinds(row: &Vec<Cell>) -> Vec<Kind> {
    let mut v = Vec::new();
    for c in row.iter() {
        v.push(c.kind);
    }
    v
}

#[test]
fn percent_conversion_floors() {
    assert_eq!(percent_to_terminal_size(4000, 80), 32);
    assert_eq!(percent_to_terminal_size(2000, 80), 16);
    assert_eq!(percent_to_terminal_size(0, 80), 0);
    assert_eq!(percent_to_terminal_size(10000, 80), 80);
    assert_eq!(percent_to_terminal_size(3300, 80), 26);
    assert_eq!(percent_to_terminal_size(2550, 100), 25);
}

#[test]
fn create_cells_vec_makes_uniform_run() {
    let v = Cell::create_cells_vec(7, Kind::River);
    assert_eq!(v.len(), 7);
    for c in v.iter() {
        assert_eq!(c.kind, Kind::River);
    }
    let empty = Cell::create_cells_vec(0, Kind::Land);
    assert_eq!(empty.len(), 0);
}

#[test]
fn design_line_sums_to_width() {
    // 40 20 40 0 0 on an 80-column terminal: 32 land, 16 river, 32 land,
    // no shortfall left over.
    let d = design(4000, 2000, 4000, 0, 0, 3);
    let (row, height) = generate_line(&d, 80);
    assert_eq!(height, 3);
    assert_eq!(row.len(), 80);
    for i in 0..32 {
        assert_eq!(row[i].kind, Kind::Land);
    }
    for i in 32..48 {
        assert_eq!(row[i].kind, Kind::River);
    }
    for i in 48..80 {
        assert_eq!(row[i].kind, Kind::Land);
    }
}

#[test]
fn shortfall_lands_in_last_land_segment() {
    // 33 33 33 0 0 on 80 columns floors to 26+26+26 = 78; the two missing
    // cells are added to the final land segment.
    let d = design(3300, 3300, 3300, 0, 0, 1);
    let (row, _) = generate_line(&d, 80);
    assert_eq!(row.len(), 80);
    for i in 0..26 {
        assert_eq!(row[i].kind, Kind::Land);
    }
    for i in 26..52 {
        assert_eq!(row[i].kind, Kind::River);
    }
    for i in 52..80 {
        assert_eq!(row[i].kind, Kind::Land);
    }
}

#[test]
fn replication_without_enemies_copies_the_row() {
    let d = design(2500, 2500, 5000, 0, 0, 1);
    let (row, _) = generate_line(&d, 4);
    assert_eq!(kinds(&row), vec![Kind::Land, Kind::River, Kind::Land, Kind::Land]);
    let part = generate_with_height(&row, 5, false);
    assert_eq!(part.len(), 5);
    for r in part.iter() {
        assert_eq!(kinds(r), kinds(&row));
    }
}

#[test]
fn enemies_only_replace_river_cells() {
    // The row has exactly one river cell, so whenever a copy holds an
    // enemy, it must stand there and nowhere else.
    let d = design(2500, 2500, 5000, 0, 0, 1);
    let (row, _) = generate_line(&d, 4);
    let part = generate_with_height(&row, 64, true);
    assert_eq!(part.len(), 64);
    for r in part.iter() {
        assert_eq!(r.len(), 4);
        assert_eq!(r[0].kind, Kind::Land);
        assert_eq!(r[2].kind, Kind::Land);
        assert_eq!(r[3].kind, Kind::Land);
        assert!(r[1].kind == Kind::River || r[1].kind == Kind::Enemy);
    }
}

#[test]
fn riverless_row_never_gains_an_enemy() {
    let d = design(10000, 0, 0, 0, 0, 1);
    let (row, _) = generate_line(&d, 6);
    let part = generate_with_height(&row, 32, true);
    for r in part.iter() {
        for c in r.iter() {
            assert_eq!(c.kind, Kind::Land);
        }
    }
}

#[test]
fn scene_from_one_design_line() {
    // "40 20 40 0 0 3" on 80 columns: the denoted row replicated 3 times,
    // and never an enemy in the first part.
    let designs = vec![design(4000, 2000, 4000, 0, 0, 3)];
    let scene = Scene::make(&designs, 80);
    assert_eq!(scene.len(), 3);
    assert_eq!(scene.row_width(), 80);
    for r in 0..3 {
        for c in 0..80 {
            let cell = scene.cell_at(r, c);
            if (32..48).contains(&c) {
                assert_eq!(cell.kind, Kind::River);
            } else {
                assert_eq!(cell.kind, Kind::Land);
            }
            assert_ne!(cell.kind, Kind::Enemy);
        }
    }
}

#[test]
fn scene_concatenates_parts_in_order() {
    // First part: two rows of LLRR; second part: three rows of all land
    // (riverless, so enemy seeding has nowhere to go and the rows are
    // deterministic).
    let designs = vec![design(5000, 5000, 0, 0, 0, 2), design(10000, 0, 0, 0, 0, 3)];
    let scene = Scene::make(&designs, 4);
    assert_eq!(scene.len(), 5);
    for r in 0..2 {
        assert_eq!(scene.cell_at(r, 0).kind, Kind::Land);
        assert_eq!(scene.cell_at(r, 1).kind, Kind::Land);
        assert_eq!(scene.cell_at(r, 2).kind, Kind::River);
        assert_eq!(scene.cell_at(r, 3).kind, Kind::River);
    }
    for r in 2..5 {
        for c in 0..4 {
            assert_eq!(scene.cell_at(r, c).kind, Kind::Land);
        }
    }
}

#[test]
fn window_wraps_without_skipping_or_doubling() {
    let designs = vec![design(5000, 5000, 0, 0, 0, 2), design(10000, 0, 0, 0, 0, 3)];
    let scene = Scene::make(&designs, 4);
    // Rows 0 and 1 hold river at column 2; rows 2..5 are all land.
    let window = scene.get_window(3, 2);
    assert_eq!(window.len(), 3);
    assert_eq!(window[0][2].kind, Kind::Land); // logical row 3
    assert_eq!(window[1][2].kind, Kind::Land); // logical row 4
    assert_eq!(window[2][2].kind, Kind::River); // wrapped to logical row 0
    // The boundary row appears exactly once on either side of the wrap.
    let window = scene.get_window(4, 1);
    assert_eq!(window.len(), 2);
    assert_eq!(window[0][2].kind, Kind::Land); // logical row 4
    assert_eq!(window[1][2].kind, Kind::River); // logical row 0
}

#[test]
fn window_with_coinciding_ends_is_one_wrapped_row() {
    let designs = vec![design(5000, 5000, 0, 0, 0, 2), design(10000, 0, 0, 0, 0, 3)];
    let scene = Scene::make(&designs, 4);
    // A zero-height window starts and ends at the same logical index and
    // comes back as a single wrapped row, neither empty nor doubled.
    let window = scene.get_window(6, 0);
    assert_eq!(window.len(), 1);
    assert_eq!(window[0][2].kind, Kind::River); // 6 mod 5 == 1
    let window = scene.get_window(4, 0);
    assert_eq!(window.len(), 1);
    assert_eq!(window[0][2].kind, Kind::Land);
}

#[test]
fn destroy_enemy_downgrades_only_enemy_cells() {
    let mut rows = Vec::new();
    for _ in 0..3 {
        rows.push(Cell::create_cells_vec(4, Kind::River));
    }
    let mut scene = Scene { rows };
    scene.rows[1][2] = Cell { kind: Kind::Enemy };
    scene.destroy_enemy(1, 2);
    assert_eq!(scene.cell_at(1, 2).kind, Kind::River);
    // A second destruction of the same cell, and one aimed at a plain
    // river cell, change nothing.
    scene.destroy_enemy(1, 2);
    assert_eq!(scene.cell_at(1, 2).kind, Kind::River);
    scene.destroy_enemy(0, 0);
    assert_eq!(scene.cell_at(0, 0).kind, Kind::River);
}
