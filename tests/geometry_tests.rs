use falling_sand::geometry::Pos;

fn connected(points: &[Pos]) -> bool {
    points.windows(2).all(|w| {
        let dx = (w[0].x - w[1].x).abs();
        let dy = (w[0].y - w[1].y).abs();
        dx <= 1 && dy <= 1 && (dx, dy) != (0, 0)
    })
}

#[test]
fn line_zero_zero_to_five_three() {
    let pts = falling_sand::geometry::line(Pos::new(0, 0), Pos::new(5, 3));
    assert_eq!(pts[0], Pos::new(0, 0));
    assert_eq!(*pts.last().unwrap(), Pos::new(5, 3));
    assert!(connected(&pts));
    let expected = vec![
        Pos::new(0, 0),
        Pos::new(1, 1),
        Pos::new(2, 1),
        Pos::new(3, 2),
        Pos::new(4, 2),
        Pos::new(5, 3),
    ];
    assert_eq!(pts, expected);
}

#[test]
fn line_single_point() {
    let pts = falling_sand::geometry::line(Pos::new(4, -2), Pos::new(4, -2));
    assert_eq!(pts, vec![Pos::new(4, -2)]);
}

#[test]
fn line_all_directions_are_continuous() {
    for (ex, ey) in [(7, 0), (-7, 0), (0, 5), (0, -5), (3, -9), (-9, 3), (-4, -4), (6, 6)] {
        let end = Pos::new(ex, ey);
        let pts = falling_sand::geometry::line(Pos::new(0, 0), end);
        assert_eq!(pts[0], Pos::new(0, 0));
        assert_eq!(*pts.last().unwrap(), end);
        assert!(connected(&pts));
        assert_eq!(pts.len() as i32, ex.abs().max(ey.abs()) + 1);
    }
}
