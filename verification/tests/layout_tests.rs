use stitchy::config::{Alignment, StitchConfig, NO_LIMIT};
use stitchy::error::StitchError;
use stitchy::layout::{compute_layout, Dims};

fn cfg(alignment: Alignment, width_limit: u32, height_limit: u32) -> StitchConfig {
    StitchConfig { alignment, width_limit, height_limit, quality: 100 }
}

#[test]
fn grid_of_four_downscaled_to_limits() {
    let sizes = vec![
        Dims { w: 100, h: 100 },
        Dims { w: 100, h: 100 },
        Dims { w: 100, h: 100 },
        Dims { w: 100, h: 100 },
    ];
    let l = compute_layout(&sizes, &cfg(Alignment::Grid, 180, 180)).unwrap();
    assert_eq!(l.cols, 2);
    assert_eq!(l.width, 180);
    assert_eq!(l.height, 180);
    assert_eq!(l.cells.len(), 4);
    for cell in &l.cells {
        assert_eq!(cell.w, 90);
        assert_eq!(cell.h, 90);
    }
    assert_eq!((l.cells[0].x, l.cells[0].y), (0, 0));
    assert_eq!((l.cells[1].x, l.cells[1].y), (90, 0));
    assert_eq!((l.cells[2].x, l.cells[2].y), (0, 90));
    assert_eq!((l.cells[3].x, l.cells[3].y), (90, 90));
}

#[test]
fn single_source_keeps_own_size() {
    let sizes = vec![Dims { w: 50, h: 40 }];
    let l = compute_layout(&sizes, &cfg(Alignment::Grid, NO_LIMIT, NO_LIMIT)).unwrap();
    assert_eq!(l.width, 50);
    assert_eq!(l.height, 40);
    assert_eq!(l.cells.len(), 1);
    assert_eq!((l.cells[0].x, l.cells[0].y, l.cells[0].w, l.cells[0].h), (0, 0, 50, 40));
}

#[test]
fn single_source_clamped_to_limits() {
    let sizes = vec![Dims { w: 400, h: 400 }];
    let l = compute_layout(&sizes, &cfg(Alignment::Grid, 200, 200)).unwrap();
    assert_eq!(l.width, 200);
    assert_eq!(l.height, 200);
    assert_eq!((l.cells[0].w, l.cells[0].h), (200, 200));
}

#[test]
fn canvas_never_exceeds_limits() {
    let sizes = vec![
        Dims { w: 123, h: 45 },
        Dims { w: 67, h: 89 },
        Dims { w: 300, h: 21 },
        Dims { w: 10, h: 400 },
        Dims { w: 55, h: 55 },
    ];
    for (wl, hl) in [(100u32, 90u32), (50, 500), (500, 50), (1, 1)] {
        let l = compute_layout(&sizes, &cfg(Alignment::Grid, wl, hl)).unwrap();
        assert!(l.width <= wl);
        assert!(l.height <= hl);
        assert!(l.width >= 1 && l.height >= 1);
    }
}

#[test]
fn horizontal_makes_one_row() {
    let sizes = vec![Dims { w: 10, h: 20 }, Dims { w: 10, h: 20 }, Dims { w: 10, h: 20 }];
    let l = compute_layout(&sizes, &cfg(Alignment::Horizontal, NO_LIMIT, NO_LIMIT)).unwrap();
    assert_eq!(l.cols, 3);
    assert_eq!(l.width, 30);
    assert_eq!(l.height, 20);
    assert_eq!(l.cells[0].x, 0);
    assert_eq!(l.cells[1].x, 10);
    assert_eq!(l.cells[2].x, 20);
    assert!(l.cells.iter().all(|c| c.y == 0));
}

#[test]
fn vertical_makes_one_column() {
    let sizes = vec![Dims { w: 10, h: 20 }, Dims { w: 10, h: 20 }, Dims { w: 10, h: 20 }];
    let l = compute_layout(&sizes, &cfg(Alignment::Vertical, NO_LIMIT, NO_LIMIT)).unwrap();
    assert_eq!(l.cols, 1);
    assert_eq!(l.width, 10);
    assert_eq!(l.height, 60);
    assert_eq!(l.cells[0].y, 0);
    assert_eq!(l.cells[1].y, 20);
    assert_eq!(l.cells[2].y, 40);
}

#[test]
fn two_images_prefer_one_row() {
    let sizes = vec![Dims { w: 10, h: 10 }, Dims { w: 10, h: 10 }];
    let l = compute_layout(&sizes, &cfg(Alignment::Grid, NO_LIMIT, NO_LIMIT)).unwrap();
    assert_eq!(l.cols, 2);
    assert_eq!(l.width, 20);
    assert_eq!(l.height, 10);
}

#[test]
fn mixed_heights_stack_by_row_maxima() {
    let sizes = vec![Dims { w: 10, h: 30 }, Dims { w: 20, h: 10 }];
    let l = compute_layout(&sizes, &cfg(Alignment::Horizontal, NO_LIMIT, NO_LIMIT)).unwrap();
    assert_eq!(l.width, 30);
    assert_eq!(l.height, 30);
}

#[test]
fn zero_width_limit_is_infeasible() {
    let sizes = vec![Dims { w: 10, h: 10 }];
    let r = compute_layout(&sizes, &cfg(Alignment::Grid, 0, 100));
    assert!(matches!(r, Err(StitchError::LayoutInfeasible)));
}

#[test]
fn zero_height_limit_is_infeasible() {
    let sizes = vec![Dims { w: 10, h: 10 }];
    let r = compute_layout(&sizes, &cfg(Alignment::Grid, 100, 0));
    assert!(matches!(r, Err(StitchError::LayoutInfeasible)));
}

#[test]
fn cells_never_overlap() {
    let sizes = vec![
        Dims { w: 31, h: 17 },
        Dims { w: 5, h: 90 },
        Dims { w: 64, h: 64 },
        Dims { w: 7, h: 3 },
        Dims { w: 120, h: 40 },
    ];
    let l = compute_layout(&sizes, &cfg(Alignment::Grid, 150, 150)).unwrap();
    for i in 0..l.cells.len() {
        for j in 0..l.cells.len() {
            if i != j {
                let a = l.cells[i];
                let b = l.cells[j];
                let disjoint = a.x + a.w <= b.x || b.x + b.w <= a.x || a.y + a.h <= b.y
                    || b.y + b.h <= a.y;
                assert!(disjoint);
            }
        }
    }
}
