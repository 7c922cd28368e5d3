use raytracer::raster::raster_order;

#[test]
fn raster_order_rows_top_down_columns_left_to_right() {
    let order = raster_order(2, 3);
    assert_eq!(order, vec![(0, 1), (1, 1), (2, 1), (0, 0), (1, 0), (2, 0)]);
}

#[test]
fn raster_order_has_one_entry_per_pixel() {
    let order = raster_order(4, 7);
    assert_eq!(order.len(), 28);
    for y in 0..4 {
        for x in 0..7 {
            assert_eq!(order.iter().filter(|p| **p == (x, y)).count(), 1);
        }
    }
    assert_eq!(order[0], (0, 3));
    assert_eq!(order[27], (6, 0));
}

#[test]
fn raster_order_single_pixel() {
    assert_eq!(raster_order(1, 1), vec![(0, 0)]);
}

#[test]
fn raster_order_empty_sides() {
    assert!(raster_order(0, 5).is_empty());
    assert!(raster_order(5, 0).is_empty());
    assert!(raster_order(-3, 4).is_empty());
    assert!(raster_order(3, -4).is_empty());
}
