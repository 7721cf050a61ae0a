//! Figure tracking: turns a sequence of path elements into the calls that a
//! native geometry sink takes.
//!
//! A sink holds at most one open figure. `MoveTo` ends an open figure before
//! it begins the next one, `ClosePath` ends the open figure, the end of the
//! path ends a figure left open, and the session is closed last. A segment or
//! a `ClosePath` with no figure open is a fault in the path and is reported.

use vstd::prelude::*;

verus! {

/// A point on the surface; the coordinate type is the caller's.
#[derive(Clone, Copy, Debug, PartialEq)]
pub struct Point<S> {
    pub x: S,
    pub y: S,
}

/// One element of a path.
#[derive(Clone, Copy, Debug, PartialEq)]
pub enum PathEl<S> {
    MoveTo(Point<S>),
    LineTo(Point<S>),
    QuadTo(Point<S>, Point<S>),
    CurveTo(Point<S>, Point<S>, Point<S>),
    ClosePath,
}

/// One call on a native geometry sink.
#[derive(Clone, Copy, Debug, PartialEq)]
pub enum SinkOp<S> {
    BeginFigure(Point<S>),
    AddLine(Point<S>),
    AddQuadraticBezier(Point<S>, Point<S>),
    AddBezier(Point<S>, Point<S>, Point<S>),
    EndFigure,
    Close,
}

/// Why a path cannot be turned into figures; `index` is the element's place.
#[derive(Clone, Copy, Debug, PartialEq, Eq, Structural)]
pub enum TessError {
    SegmentWithoutFigure { index: usize },
    CloseWithoutFigure { index: usize },
}

pub open spec fn is_segment<S>(el: PathEl<S>) -> bool {
    el is LineTo || el is QuadTo || el is CurveTo
}

pub open spec fn is_segment_op<S>(op: SinkOp<S>) -> bool {
    op is AddLine || op is AddQuadraticBezier || op is AddBezier
}

/// What one element does, given whether a figure is open: the new state and
/// the sink calls it makes, or `None` where the element needs an open figure.
pub open spec fn step<S>(open: bool, el: PathEl<S>) -> Option<(bool, Seq<SinkOp<S>>)> {
    match el {
        PathEl::MoveTo(p) => Some(
            (
                true,
                if open {
                    seq![SinkOp::EndFigure, SinkOp::BeginFigure(p)]
                } else {
                    seq![SinkOp::BeginFigure(p)]
                },
            ),
        ),
        PathEl::LineTo(p) => if open {
            Some((true, seq![SinkOp::AddLine(p)]))
        } else {
            None
        },
        PathEl::QuadTo(p1, p2) => if open {
            Some((true, seq![SinkOp::AddQuadraticBezier(p1, p2)]))
        } else {
            None
        },
        PathEl::CurveTo(p1, p2, p3) => if open {
            Some((true, seq![SinkOp::AddBezier(p1, p2, p3)]))
        } else {
            None
        },
        PathEl::ClosePath => if open {
            Some((false, seq![SinkOp::EndFigure]))
        } else {
            None
        },
    }
}

/// The error for element `el`, at place `index`, found with no figure open.
pub open spec fn fault<S>(el: PathEl<S>, index: int) -> TessError {
    if el is ClosePath {
        TessError::CloseWithoutFigure { index: index as usize }
    } else {
        TessError::SegmentWithoutFigure { index: index as usize }
    }
}

/// The state after the elements `els`, and the calls made so far.
pub open spec fn scan<S>(els: Seq<PathEl<S>>) -> Result<(bool, Seq<SinkOp<S>>), TessError>
    decreases els.len(),
{
    if els.len() == 0 {
        Ok((false, Seq::empty()))
    } else {
        match scan(els.drop_last()) {
            Err(e) => Err(e),
            Ok((open, ops)) => match step(open, els.last()) {
                None => Err(fault(els.last(), els.len() - 1)),
                Some((now_open, more)) => Ok((now_open, ops + more)),
            },
        }
    }
}

/// The whole session for a path: its calls, an end for a figure left open,
/// and the closing call.
pub open spec fn tessellation<S>(els: Seq<PathEl<S>>) -> Result<Seq<SinkOp<S>>, TessError> {
    match scan(els) {
        Err(e) => Err(e),
        Ok((open, ops)) => Ok(
            if open {
                ops.push(SinkOp::EndFigure)
            } else {
                ops
            }.push(SinkOp::Close),
        ),
    }
}

proof fn lemma_scan_err_extends<S>(els: Seq<PathEl<S>>, i: int)
    requires
        0 <= i <= els.len(),
        scan(els.take(i)) is Err,
    ensures
        scan(els) == scan(els.take(i)),
    decreases els.len(),
{
    if els.len() == i {
        assert(els.take(i) =~= els);
    } else {
        assert(els.drop_last().take(i) =~= els.take(i));
        lemma_scan_err_extends(els.drop_last(), i);
    }
}

/// Whether a sink in state `open` accepts `op`, and its state after it.
/// `Close` ends the session and is taken only as the last call.
pub open spec fn accepts<S>(open: bool, op: SinkOp<S>) -> Option<bool> {
    match op {
        SinkOp::BeginFigure(_) => if open {
            None
        } else {
            Some(true)
        },
        SinkOp::EndFigure => if open {
            Some(false)
        } else {
            None
        },
        SinkOp::Close => None,
        _ => if open {
            Some(true)
        } else {
            None
        },
    }
}

/// The state of a sink after the calls `ops`, or `None` if one is refused.
pub open spec fn sink_state<S>(ops: Seq<SinkOp<S>>) -> Option<bool>
    decreases ops.len(),
{
    if ops.len() == 0 {
        Some(false)
    } else {
        match sink_state(ops.drop_last()) {
            None => None,
            Some(open) => accepts(open, ops.last()),
        }
    }
}

/// A complete session: every figure is begun before it is drawn into and
/// ended before the next one begins, none is left open, and `Close` comes
/// once, last.
pub open spec fn valid_session<S>(ops: Seq<SinkOp<S>>) -> bool {
    &&& ops.len() > 0
    &&& ops.last() == SinkOp::<S>::Close
    &&& sink_state(ops.drop_last()) == Some(false)
}

/// No call adds a segment: every figure is a lone point and covers nothing.
pub open spec fn draws_nothing<S>(ops: Seq<SinkOp<S>>) -> bool {
    forall|j: int| 0 <= j < ops.len() ==> !is_segment_op(#[trigger] ops[j])
}

proof fn lemma_sink_push<S>(ops: Seq<SinkOp<S>>, op: SinkOp<S>)
    ensures
        sink_state(ops.push(op)) == match sink_state(ops) {
            None => None,
            Some(open) => accepts(open, op),
        },
{
    assert(ops.push(op).drop_last() =~= ops);
}

proof fn lemma_scan_sink_state<S>(els: Seq<PathEl<S>>)
    ensures
        scan(els) matches Ok((open, ops)) ==> sink_state(ops) == Some(open),
    decreases els.len(),
{
    if els.len() > 0 {
        lemma_scan_sink_state(els.drop_last());
        if let Ok((open, ops)) = scan(els.drop_last()) {
            if let Some((_, more)) = step(open, els.last()) {
                if more.len() == 1 {
                    assert(ops + more =~= ops.push(more[0]));
                    lemma_sink_push(ops, more[0]);
                } else {
                    assert(ops + more =~= ops.push(more[0]).push(more[1]));
                    lemma_sink_push(ops, more[0]);
                    lemma_sink_push(ops.push(more[0]), more[1]);
                }
            }
        }
    }
}

/// Every session that tessellation produces is complete: it never begins a
/// figure while one is open, never leaves one open, and closes once, last.
pub proof fn lemma_tessellation_is_valid_session<S>(els: Seq<PathEl<S>>)
    ensures
        tessellation(els) matches Ok(ops) ==> valid_session(ops),
{
    lemma_scan_sink_state(els);
    if let Ok((open, ops)) = scan(els) {
        if open {
            lemma_sink_push(ops, SinkOp::EndFigure);
            assert(ops.push(SinkOp::EndFigure).push(SinkOp::Close).drop_last() =~= ops.push(
                SinkOp::EndFigure,
            ));
        } else {
            assert(ops.push(SinkOp::Close).drop_last() =~= ops);
        }
    }
}

/// A path made only of `MoveTo` each followed at once by `ClosePath`.
pub open spec fn only_empty_figures<S>(els: Seq<PathEl<S>>) -> bool {
    &&& els.len() % 2 == 0
    &&& forall|i: int|
        0 <= i < els.len() / 2 ==> (#[trigger] els[2 * i]) is MoveTo && els[2 * i + 1] is ClosePath
}

proof fn lemma_empty_figures_scan<S>(els: Seq<PathEl<S>>)
    requires
        only_empty_figures(els),
    ensures
        scan(els) matches Ok((open, ops)) && !open && draws_nothing(ops),
    decreases els.len(),
{
    if els.len() > 0 {
        let pre = els.drop_last().drop_last();
        assert(only_empty_figures(pre)) by {
            assert forall|i: int| 0 <= i < pre.len() / 2 implies (#[trigger] pre[2 * i]) is MoveTo
                && pre[2 * i + 1] is ClosePath by {
                assert(pre[2 * i] == els[2 * i]);
                assert(pre[2 * i + 1] == els[2 * i + 1]);
            }
        }
        lemma_empty_figures_scan(pre);
        let k = els.len() / 2 - 1;
        assert(els[2 * k] is MoveTo);
        assert(els.drop_last().last() == els[2 * k]);
        assert(els.drop_last().drop_last() =~= pre);
        assert(els.last() == els[2 * k + 1]);
        let pops = scan(pre)->Ok_0.1;
        let p = els[2 * k]->MoveTo_0;
        let ops = pops + seq![SinkOp::BeginFigure(p)] + seq![SinkOp::EndFigure];
        assert(scan(els.drop_last()) == Ok::<(bool, Seq<SinkOp<S>>), TessError>(
            (true, pops + seq![SinkOp::BeginFigure(p)]),
        ));
        assert forall|j: int| 0 <= j < ops.len() implies !is_segment_op(#[trigger] ops[j]) by {
            if j < pops.len() {
                assert(ops[j] == pops[j]);
            }
        }
    }
}

/// A path of figures that are each begun and closed at once is accepted, and
/// its session draws nothing.
pub proof fn lemma_empty_figures_draw_nothing<S>(els: Seq<PathEl<S>>)
    requires
        only_empty_figures(els),
    ensures
        tessellation(els) matches Ok(ops) && draws_nothing(ops),
{
    lemma_empty_figures_scan(els);
    let ops = scan(els)->Ok_0.1;
    assert forall|j: int| 0 <= j < ops.push(SinkOp::Close).len() implies !is_segment_op(
        #[trigger] ops.push(SinkOp::Close)[j],
    ) by {
        if j < ops.len() {
            assert(ops.push(SinkOp::Close)[j] == ops[j]);
        }
    }
}

proof fn lemma_no_move_stays_closed<S>(els: Seq<PathEl<S>>)
    requires
        forall|j: int| 0 <= j < els.len() ==> !(#[trigger] els[j] is MoveTo),
    ensures
        scan(els) matches Ok((open, _)) ==> !open,
    decreases els.len(),
{
    if els.len() > 0 {
        let pre = els.drop_last();
        assert forall|j: int| 0 <= j < pre.len() implies !(#[trigger] pre[j] is MoveTo) by {
            assert(pre[j] == els[j]);
        }
        lemma_no_move_stays_closed(pre);
        assert(!(els[els.len() - 1] is MoveTo));
    }
}

/// A path with a segment before its first `MoveTo` is refused.
pub proof fn lemma_segment_before_move_fails<S>(els: Seq<PathEl<S>>, i: int)
    requires
        0 <= i < els.len(),
        is_segment(els[i]),
        forall|j: int| 0 <= j < i ==> !(#[trigger] els[j] is MoveTo),
    ensures
        tessellation(els) is Err,
{
    let pre = els.take(i);
    assert forall|j: int| 0 <= j < pre.len() implies !(#[trigger] pre[j] is MoveTo) by {
        assert(pre[j] == els[j]);
    }
    lemma_no_move_stays_closed(pre);
    assert(els.take(i + 1).drop_last() =~= pre);
    assert(els.take(i + 1).last() == els[i]);
    lemma_scan_err_extends(els, i + 1);
}

/// Leaving the last figure open is the same as closing it: appending
/// `ClosePath` to a path that does not end with one changes nothing.
pub proof fn lemma_open_end_is_closed<S>(els: Seq<PathEl<S>>)
    requires
        els.len() > 0,
        !(els.last() is ClosePath),
    ensures
        tessellation(els.push(PathEl::ClosePath)) == tessellation(els),
{
    assert(els.push(PathEl::ClosePath).drop_last() =~= els);
    if let Ok((open, ops)) = scan(els) {
        assert(open);
        assert(ops + seq![SinkOp::EndFigure] =~= ops.push(SinkOp::EndFigure));
    }
}

/// `x` is `y` with the calls `ins` put in at place `k`: both succeed or both
/// fail, and on success they end in the same state.
pub open spec fn inserted_at<S>(
    x: Result<(bool, Seq<SinkOp<S>>), TessError>,
    y: Result<(bool, Seq<SinkOp<S>>), TessError>,
    k: int,
    ins: Seq<SinkOp<S>>,
) -> bool {
    &&& (x is Ok <==> y is Ok)
    &&& (y matches Ok((y_open, ys)) ==> x matches Ok((x_open, xs)) && x_open == y_open && 0 <= k
        <= ys.len() && xs == ys.take(k) + ins + ys.skip(k))
}

proof fn lemma_inserted_extends<S>(
    u: Seq<PathEl<S>>,
    v: Seq<PathEl<S>>,
    rest: Seq<PathEl<S>>,
    k: int,
    ins: Seq<SinkOp<S>>,
)
    requires
        inserted_at(scan(u), scan(v), k, ins),
    ensures
        inserted_at(scan(u + rest), scan(v + rest), k, ins),
    decreases rest.len(),
{
    if rest.len() == 0 {
        assert(u + rest =~= u);
        assert(v + rest =~= v);
    } else {
        let r0 = rest.drop_last();
        lemma_inserted_extends(u, v, r0, k, ins);
        assert((u + rest).drop_last() =~= u + r0);
        assert((v + rest).drop_last() =~= v + r0);
        assert((u + rest).last() == rest.last());
        assert((v + rest).last() == rest.last());
        if let Ok((open, ys)) = scan(v + r0) {
            let xs = scan(u + r0)->Ok_0.1;
            if let Some((_, more)) = step(open, rest.last()) {
                assert(xs + more =~= (ys + more).take(k) + ins + (ys + more).skip(k));
            }
        }
    }
}

/// Where the session of `pre` leaves off before the next `MoveTo` begins a
/// figure: after its calls, and after the end of a figure left open.
pub open spec fn figure_start<S>(pre: Seq<PathEl<S>>) -> int {
    match scan(pre) {
        Ok((open, ops)) => ops.len() + if open {
            1int
        } else {
            0
        },
        Err(_) => 0,
    }
}

/// Two `MoveTo` in a row: the first figure is ended at once with no segment,
/// so it adds nothing to draw. The session is the one without the first
/// `MoveTo`, with that empty figure put in just before the second figure.
pub proof fn lemma_repeated_move_adds_empty_figure<S>(
    pre: Seq<PathEl<S>>,
    a: Point<S>,
    b: Point<S>,
    rest: Seq<PathEl<S>>,
)
    ensures
        ({
            let x = tessellation(pre + seq![PathEl::MoveTo(a), PathEl::MoveTo(b)] + rest);
            let y = tessellation(pre + seq![PathEl::MoveTo(b)] + rest);
            let k = figure_start(pre);
            &&& (x is Ok <==> y is Ok)
            &&& (y matches Ok(ys) ==> x matches Ok(xs) && 0 <= k < ys.len() && ys[k]
                == SinkOp::BeginFigure(b) && xs == ys.take(k) + seq![
                SinkOp::BeginFigure(a),
                SinkOp::EndFigure,
            ] + ys.skip(k))
        }),
{
    let u = pre + seq![PathEl::MoveTo(a), PathEl::MoveTo(b)];
    let v = pre + seq![PathEl::MoveTo(b)];
    let ins = seq![SinkOp::BeginFigure(a), SinkOp::EndFigure];
    let k = figure_start(pre);
    assert(u.drop_last().drop_last() =~= pre);
    assert(u.drop_last().last() == PathEl::MoveTo(a));
    assert(u.last() == PathEl::MoveTo(b));
    assert(v.drop_last() =~= pre);
    assert(v.last() == PathEl::MoveTo(b));
    if let Ok((open, ops)) = scan(pre) {
        let lead = if open {
            ops + seq![SinkOp::EndFigure]
        } else {
            ops
        };
        let ys = lead + seq![SinkOp::BeginFigure(b)];
        assert(scan(v) == Ok::<(bool, Seq<SinkOp<S>>), TessError>((true, ys))) by {
            if open {
                assert(ops + seq![SinkOp::EndFigure, SinkOp::BeginFigure(b)] =~= ys);
            }
        }
        assert(scan(u.drop_last()) == Ok::<(bool, Seq<SinkOp<S>>), TessError>(
            (true, lead + seq![SinkOp::BeginFigure(a)]),
        )) by {
            if open {
                assert(ops + seq![SinkOp::EndFigure, SinkOp::BeginFigure(a)] =~= lead + seq![
                    SinkOp::BeginFigure(a),
                ]);
            }
        }
        assert(lead + seq![SinkOp::BeginFigure(a)] + seq![SinkOp::EndFigure, SinkOp::BeginFigure(b)]
            =~= ys.take(k) + ins + ys.skip(k));
        assert(ys.len() == k + 1 && ys[k] == SinkOp::BeginFigure(b));
    }
    assert(scan(pre) is Ok ==> scan(v)->Ok_0.1.len() == k + 1 && scan(v)->Ok_0.1[k]
        == SinkOp::BeginFigure(b));
    assert(inserted_at(scan(u), scan(v), k, ins));
    lemma_inserted_extends(u, v, rest, k, ins);
    if let Ok((open, ys)) = scan(v + rest) {
        let xs = scan(u + rest)->Ok_0.1;
        assert(k < ys.len() && ys[k] == SinkOp::BeginFigure(b)) by {
            assert((v + rest).take(v.len() as int) =~= v);
            if scan(v) is Err {
                lemma_scan_err_extends(v + rest, v.len() as int);
            }
            lemma_scan_prefix_kept(v, rest);
            assert(ys[k] == scan(v)->Ok_0.1[k]);
        }
        let fin = if open {
            seq![SinkOp::EndFigure, SinkOp::Close]
        } else {
            seq![SinkOp::Close]
        };
        assert(tessellation(v + rest) == Ok::<Seq<SinkOp<S>>, TessError>(ys + fin)) by {
            if open {
                assert(ys.push(SinkOp::EndFigure).push(SinkOp::Close) =~= ys + fin);
            } else {
                assert(ys.push(SinkOp::Close) =~= ys + fin);
            }
        }
        assert(tessellation(u + rest) == Ok::<Seq<SinkOp<S>>, TessError>(xs + fin)) by {
            if open {
                assert(xs.push(SinkOp::EndFigure).push(SinkOp::Close) =~= xs + fin);
            } else {
                assert(xs.push(SinkOp::Close) =~= xs + fin);
            }
        }
        assert(xs + fin =~= (ys + fin).take(k) + ins + (ys + fin).skip(k));
        assert((ys + fin)[k] == ys[k]);
    }
}

proof fn lemma_scan_prefix_kept<S>(v: Seq<PathEl<S>>, rest: Seq<PathEl<S>>)
    requires
        scan(v) is Ok,
    ensures
        scan(v + rest) matches Ok((_, ys)) ==> scan(v)->Ok_0.1.len() <= ys.len() && forall|
            j: int,
        |
            0 <= j < scan(v)->Ok_0.1.len() ==> #[trigger] ys[j] == scan(v)->Ok_0.1[j],
    decreases rest.len(),
{
    if rest.len() == 0 {
        assert(v + rest =~= v);
    } else {
        let r0 = rest.drop_last();
        lemma_scan_prefix_kept(v, r0);
        assert((v + rest).drop_last() =~= v + r0);
        if let Ok((open, ys)) = scan(v + r0) {
            if let Some((_, more)) = step(open, (v + rest).last()) {
                assert forall|j: int| 0 <= j < ys.len() implies #[trigger] (ys + more)[j]
                    == ys[j] by {}
            }
        }
    }
}

/// Turns a path into the calls of one geometry-sink session.
pub fn tessellate<S: Copy>(path: &Vec<PathEl<S>>) -> (r: Result<Vec<SinkOp<S>>, TessError>)
    ensures
        match r {
            Ok(ops) => tessellation(path@) == Ok::<Seq<SinkOp<S>>, TessError>(ops@) && valid_session(
                ops@,
            ),
            Err(e) => tessellation(path@) == Err::<Seq<SinkOp<S>>, TessError>(e),
        },
{
    let mut ops: Vec<SinkOp<S>> = Vec::new();
    let mut open = false;
    let mut i: usize = 0;
    assert(path@.take(0) =~= Seq::<PathEl<S>>::empty());
    while i < path.len()
        invariant
            i <= path.len(),
            scan(path@.take(i as int)) == Ok::<(bool, Seq<SinkOp<S>>), TessError>((open, ops@)),
        decreases path.len() - i,
    {
        let el = path[i];
        proof {
            assert(path@.take(i + 1).drop_last() =~= path@.take(i as int));
            assert(path@.take(i + 1).last() == el);
        }
        let ghost prev = ops@;
        let ghost was_open = open;
        match el {
            PathEl::MoveTo(p) => {
                if open {
                    ops.push(SinkOp::EndFigure);
                }
                ops.push(SinkOp::BeginFigure(p));
                open = true;
            },
            PathEl::LineTo(p) => {
                if !open {
                    proof {
                        lemma_scan_err_extends(path@, i + 1);
                    }
                    return Err(TessError::SegmentWithoutFigure { index: i });
                }
                ops.push(SinkOp::AddLine(p));
            },
            PathEl::QuadTo(p1, p2) => {
                if !open {
                    proof {
                        lemma_scan_err_extends(path@, i + 1);
                    }
                    return Err(TessError::SegmentWithoutFigure { index: i });
                }
                ops.push(SinkOp::AddQuadraticBezier(p1, p2));
            },
            PathEl::CurveTo(p1, p2, p3) => {
                if !open {
                    proof {
                        lemma_scan_err_extends(path@, i + 1);
                    }
                    return Err(TessError::SegmentWithoutFigure { index: i });
                }
                ops.push(SinkOp::AddBezier(p1, p2, p3));
            },
            PathEl::ClosePath => {
                if !open {
                    proof {
                        lemma_scan_err_extends(path@, i + 1);
                    }
                    return Err(TessError::CloseWithoutFigure { index: i });
                }
                ops.push(SinkOp::EndFigure);
                open = false;
            },
        }
        proof {
            assert(ops@ =~= prev + step(was_open, el)->Some_0.1);
        }
        i = i + 1;
    }
    assert(path@.take(i as int) =~= path@);
    if open {
        ops.push(SinkOp::EndFigure);
    }
    ops.push(SinkOp::Close);
    proof {
        lemma_tessellation_is_valid_session(path@);
    }
    Ok(ops)
}

} // verus!
