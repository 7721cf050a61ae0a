use kurbo::{BezPath, Shape};
use piet_d2d::draw::{plan, DrawMode, DrawOp, Rect, Shape as PlanShape};
use piet_d2d::path::{PathEl, Point, SinkOp};

fn to_point(p: kurbo::Point) -> Point<f64> {
    Point { x: p.x, y: p.y }
}

fn to_kurbo(p: Point<f64>) -> kurbo::Point {
    kurbo::Point::new(p.x, p.y)
}

fn convert(el: kurbo::PathEl) -> PathEl<f64> {
    match el {
        kurbo::PathEl::MoveTo(p) => PathEl::MoveTo(to_point(p)),
        kurbo::PathEl::LineTo(p) => PathEl::LineTo(to_point(p)),
        kurbo::PathEl::QuadTo(a, b) => PathEl::QuadTo(to_point(a), to_point(b)),
        kurbo::PathEl::CurveTo(a, b, c) => PathEl::CurveTo(to_point(a), to_point(b), to_point(c)),
        kurbo::PathEl::ClosePath => PathEl::ClosePath,
    }
}

fn rebuild(ops: &[SinkOp<f64>]) -> BezPath {
    let mut path = BezPath::new();
    for op in ops {
        match *op {
            SinkOp::BeginFigure(p) => path.move_to(to_kurbo(p)),
            SinkOp::AddLine(p) => path.line_to(to_kurbo(p)),
            SinkOp::AddQuadraticBezier(a, b) => path.quad_to(to_kurbo(a), to_kurbo(b)),
            SinkOp::AddBezier(a, b, c) => path.curve_to(to_kurbo(a), to_kurbo(b), to_kurbo(c)),
            SinkOp::EndFigure => path.close_path(),
            SinkOp::Close => {}
        }
    }
    path
}

#[test]
fn flattened_rounded_rect_covers_the_primitive_area() {
    let rounded = kurbo::RoundedRect::new(200.0, 250.0, 400.0, 340.0, 20.0);
    let path: Vec<PathEl<f64>> = rounded.to_bez_path(1e-3).map(convert).collect();
    let ops = match plan(&PlanShape::Path(path), DrawMode::Fill) {
        Ok(DrawOp::FillGeometry(ops)) => ops,
        other => panic!("unexpected plan {:?}", other),
    };
    let geometry_area = rebuild(&ops).area().abs();

    let primitive = PlanShape::RoundedRect {
        rect: Rect { x: 200.0, y: 250.0, width: 200.0, height: 90.0 },
        radius: 20.0,
    };
    let primitive_area = match plan(&primitive, DrawMode::Fill) {
        Ok(DrawOp::FillRoundedRectangle(r)) => {
            let corner_cut = (4.0 - std::f64::consts::PI) * r.radius_x * r.radius_y;
            r.rect.width * r.rect.height - corner_cut
        }
        other => panic!("unexpected plan {:?}", other),
    };
    assert!((geometry_area - primitive_area).abs() < 1e-2);
    assert!((primitive_area - rounded.area()).abs() < 1e-6);
}
