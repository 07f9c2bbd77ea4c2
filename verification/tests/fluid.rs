use sdf_text_view::fluid::{
    init_cell_kinds, setup_open_geometry, PoiseuilleFrameState, CELL_DISABLED, CELL_FLUID,
    CELL_INFLOW, CELL_OUTFLOW, CELL_WALL,
};

#[test]
fn border_cells_are_disabled() {
    for i in 0..10 {
        assert_eq!(setup_open_geometry(i, 0, 10, 10), CELL_DISABLED);
        assert_eq!(setup_open_geometry(i, 9, 10, 10), CELL_DISABLED);
        assert_eq!(setup_open_geometry(0, i, 10, 10), CELL_DISABLED);
        assert_eq!(setup_open_geometry(9, i, 10, 10), CELL_DISABLED);
    }
}

#[test]
fn inflow_outflow_walls_and_bulk() {
    assert_eq!(setup_open_geometry(1, 1, 10, 10), CELL_WALL);
    assert_eq!(setup_open_geometry(1, 2, 10, 10), CELL_INFLOW);
    assert_eq!(setup_open_geometry(1, 7, 10, 10), CELL_INFLOW);
    assert_eq!(setup_open_geometry(1, 8, 10, 10), CELL_WALL);
    assert_eq!(setup_open_geometry(8, 2, 10, 10), CELL_OUTFLOW);
    assert_eq!(setup_open_geometry(8, 8, 10, 10), CELL_WALL);
    assert_eq!(setup_open_geometry(2, 1, 10, 10), CELL_WALL);
    assert_eq!(setup_open_geometry(5, 8, 10, 10), CELL_WALL);
    assert_eq!(setup_open_geometry(5, 5, 10, 10), CELL_FLUID);
    assert_eq!(setup_open_geometry(2, 2, 10, 10), CELL_FLUID);
}

#[test]
fn narrow_channel_prefers_inflow() {
    // with three columns the inflow and outflow column coincide
    assert_eq!(setup_open_geometry(1, 2, 3, 6), CELL_INFLOW);
    assert_eq!(setup_open_geometry(1, 1, 3, 6), CELL_WALL);
}

#[test]
fn out_of_range_but_defined_cells() {
    // x == 0 or y == 0 is decided before any subtraction
    assert_eq!(setup_open_geometry(0, 5, 0, 0), CELL_DISABLED);
    assert_eq!(setup_open_geometry(3, 0, 0, 0), CELL_DISABLED);
}

#[test]
fn cell_kinds_are_row_major() {
    let cells = init_cell_kinds(10, 10);
    assert_eq!(cells.len(), 100);
    for y in 0..10u32 {
        for x in 0..10u32 {
            assert_eq!(cells[(y * 10 + x) as usize], setup_open_geometry(x, y, 10, 10));
        }
    }
    assert_eq!(cells[2 * 10 + 1], CELL_INFLOW);
    let wide = init_cell_kinds(5, 3);
    assert_eq!(wide.len(), 15);
    assert_eq!(wide, vec![0, 0, 0, 0, 0, 0, 2, 2, 2, 0, 0, 0, 0, 0, 0]);
    assert!(init_cell_kinds(0, 7).is_empty());
}

#[test]
fn readback_every_51_frames() {
    let mut s = PoiseuilleFrameState::new();
    for frame in 0..200u32 {
        let a = s.enter_frame();
        let expected = frame % 51 == 0;
        assert_eq!(a.compute, expected, "frame {}", frame);
        assert_eq!(a.read_back, expected, "frame {}", frame);
    }
}
