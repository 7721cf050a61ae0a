use piet_d2d::path::{tessellate, PathEl, Point, SinkOp, TessError};

fn pt(x: f64, y: f64) -> Point<f64> {
    Point { x, y }
}

fn is_segment(op: &SinkOp<f64>) -> bool {
    matches!(
        op,
        SinkOp::AddLine(_) | SinkOp::AddQuadraticBezier(_, _) | SinkOp::AddBezier(_, _, _)
    )
}

#[test]
fn empty_path_only_closes_the_session() {
    let ops = tessellate::<f64>(&vec![]).unwrap();
    assert_eq!(ops, vec![SinkOp::Close]);
}

#[test]
fn move_then_close_is_a_degenerate_figure() {
    let path = vec![
        PathEl::MoveTo(pt(1.0, 2.0)),
        PathEl::ClosePath,
        PathEl::MoveTo(pt(3.0, 4.0)),
        PathEl::ClosePath,
    ];
    let ops = tessellate(&path).unwrap();
    assert_eq!(
        ops,
        vec![
            SinkOp::BeginFigure(pt(1.0, 2.0)),
            SinkOp::EndFigure,
            SinkOp::BeginFigure(pt(3.0, 4.0)),
            SinkOp::EndFigure,
            SinkOp::Close,
        ]
    );
    assert!(!ops.iter().any(is_segment));
}

#[test]
fn segment_before_move_fails() {
    let path = vec![PathEl::LineTo(pt(1.0, 1.0)), PathEl::MoveTo(pt(0.0, 0.0))];
    assert_eq!(tessellate(&path), Err(TessError::SegmentWithoutFigure { index: 0 }));
    let path = vec![
        PathEl::MoveTo(pt(0.0, 0.0)),
        PathEl::ClosePath,
        PathEl::CurveTo(pt(1.0, 1.0), pt(2.0, 2.0), pt(3.0, 0.0)),
    ];
    assert_eq!(tessellate(&path), Err(TessError::SegmentWithoutFigure { index: 2 }));
}

#[test]
fn close_without_figure_fails() {
    let path = vec![PathEl::ClosePath];
    assert_eq!(tessellate::<f64>(&path), Err(TessError::CloseWithoutFigure { index: 0 }));
}

#[test]
fn open_figure_is_closed_at_the_end() {
    let open = vec![
        PathEl::MoveTo(pt(0.0, 0.0)),
        PathEl::LineTo(pt(10.0, 0.0)),
        PathEl::QuadTo(pt(10.0, 10.0), pt(0.0, 10.0)),
    ];
    let mut closed = open.clone();
    closed.push(PathEl::ClosePath);
    let ops = tessellate(&open).unwrap();
    assert_eq!(ops, tessellate(&closed).unwrap());
    assert_eq!(
        ops,
        vec![
            SinkOp::BeginFigure(pt(0.0, 0.0)),
            SinkOp::AddLine(pt(10.0, 0.0)),
            SinkOp::AddQuadraticBezier(pt(10.0, 10.0), pt(0.0, 10.0)),
            SinkOp::EndFigure,
            SinkOp::Close,
        ]
    );
}

#[test]
fn repeated_move_keeps_only_the_second_figure_drawn() {
    let path = vec![
        PathEl::MoveTo(pt(5.0, 5.0)),
        PathEl::MoveTo(pt(0.0, 0.0)),
        PathEl::LineTo(pt(1.0, 0.0)),
        PathEl::LineTo(pt(1.0, 1.0)),
    ];
    let ops = tessellate(&path).unwrap();
    assert_eq!(
        ops,
        vec![
            SinkOp::BeginFigure(pt(5.0, 5.0)),
            SinkOp::EndFigure,
            SinkOp::BeginFigure(pt(0.0, 0.0)),
            SinkOp::AddLine(pt(1.0, 0.0)),
            SinkOp::AddLine(pt(1.0, 1.0)),
            SinkOp::EndFigure,
            SinkOp::Close,
        ]
    );
    let without_first = tessellate(&path[1..].to_vec()).unwrap();
    let mut expected = vec![SinkOp::BeginFigure(pt(5.0, 5.0)), SinkOp::EndFigure];
    expected.extend(without_first);
    assert_eq!(ops, expected);
}

#[test]
fn move_ends_an_open_figure_first() {
    let path = vec![
        PathEl::MoveTo(pt(0.0, 0.0)),
        PathEl::LineTo(pt(1.0, 0.0)),
        PathEl::MoveTo(pt(2.0, 0.0)),
        PathEl::CurveTo(pt(3.0, 1.0), pt(4.0, 1.0), pt(5.0, 0.0)),
        PathEl::ClosePath,
    ];
    assert_eq!(
        tessellate(&path).unwrap(),
        vec![
            SinkOp::BeginFigure(pt(0.0, 0.0)),
            SinkOp::AddLine(pt(1.0, 0.0)),
            SinkOp::EndFigure,
            SinkOp::BeginFigure(pt(2.0, 0.0)),
            SinkOp::AddBezier(pt(3.0, 1.0), pt(4.0, 1.0), pt(5.0, 0.0)),
            SinkOp::EndFigure,
            SinkOp::Close,
        ]
    );
}
