//! Drawing a chain and what stands at its positions.
use crate::geometry::{line_views, Coord, LineString};
use crate::magic_value::MagicValue;
use crate::paint::{clone_brush, solid_brush, solid_of, Stroke, StrokeView};
use crate::renderer::geometry_renderer::GeometryRenderer;
use crate::renderer::point_renderer::{circle_of, ONE_TENTH};
use crate::scene::{
    lemma_op_views_add, lemma_op_views_push, op_views, path_of, push_path, DrawOp, DrawOpView,
    PathEl,
};
use vstd::prelude::*;

verus! {

/// The part that a position plays in its chain.
#[derive(Clone, Copy, Debug, PartialEq, Eq, Hash, Structural)]
pub enum NodeKind {
    All,
    Mid,
    Start,
    End,
}

/// The renderers that stand at the positions of a chain, by the part that a
/// position plays. A kind without renderers has an empty list.
#[derive(Debug, PartialEq)]
pub struct NodeRenderers {
    pub all: Vec<MagicValue<GeometryRenderer>>,
    pub mid: Vec<MagicValue<GeometryRenderer>>,
    pub start: Vec<MagicValue<GeometryRenderer>>,
    pub end: Vec<MagicValue<GeometryRenderer>>,
}

impl NodeRenderers {
    /// No renderer for any kind.
    pub fn new() -> (r: NodeRenderers)
        ensures
            r.all@.len() == 0,
            r.mid@.len() == 0,
            r.start@.len() == 0,
            r.end@.len() == 0,
    {
        NodeRenderers { all: Vec::new(), mid: Vec::new(), start: Vec::new(), end: Vec::new() }
    }

    /// The renderers of a kind.
    pub fn get(&self, kind: NodeKind) -> (r: &Vec<MagicValue<GeometryRenderer>>)
        ensures
            *r == (match kind {
                NodeKind::All => self.all,
                NodeKind::Mid => self.mid,
                NodeKind::Start => self.start,
                NodeKind::End => self.end,
            }),
    {
        match kind {
            NodeKind::All => &self.all,
            NodeKind::Mid => &self.mid,
            NodeKind::Start => &self.start,
            NodeKind::End => &self.end,
        }
    }

    /// Whether any kind has a renderer.
    pub fn len(&self) -> (n: usize)
        ensures
            n == (if self.all@.len() > 0 { 1nat } else { 0 }) + (if self.mid@.len() > 0 { 1nat } else { 0 })
                + (if self.start@.len() > 0 { 1nat } else { 0 }) + (if self.end@.len() > 0 { 1nat } else { 0 }),
    {
        let mut n: usize = 0;
        if self.all.len() > 0 {
            n += 1;
        }
        if self.mid.len() > 0 {
            n += 1;
        }
        if self.start.len() > 0 {
            n += 1;
        }
        if self.end.len() > 0 {
            n += 1;
        }
        n
    }
}

/// How a chain is drawn: stroked in a brush, with renderers at its
/// positions.
#[derive(Debug, PartialEq)]
pub struct LineRenderer {
    pub stroke: MagicValue<Stroke>,
    pub brush: MagicValue<peniko::Brush>,
    pub node_renderers: NodeRenderers,
}

/// What one renderer draws at a position: a point renderer its circle, any
/// other nothing, a position having neither lines nor areas.
pub open spec fn mark(child: GeometryRenderer, point: Coord) -> Seq<DrawOpView> {
    match child {
        GeometryRenderer::Point(_, renderer) => seq![circle_of(renderer.inner, point)],
        _ => Seq::empty(),
    }
}

/// What the first `n` renderers of a list draw at a position, in order.
pub open spec fn marks_upto(
    children: Seq<MagicValue<GeometryRenderer>>,
    point: Coord,
    n: nat,
) -> Seq<DrawOpView>
    decreases n,
{
    if n == 0 || n > children.len() {
        Seq::empty()
    } else {
        marks_upto(children, point, (n - 1) as nat) + mark(children[n - 1].inner, point)
    }
}

/// What the renderers of a list draw at a position, in order.
pub open spec fn marks(children: Seq<MagicValue<GeometryRenderer>>, point: Coord) -> Seq<
    DrawOpView,
> {
    marks_upto(children, point, children.len())
}

/// What is drawn at one position: first by the renderers for all
/// positions, then by those for a position in the middle if it is neither
/// the first nor the last, then by those for the first if it is the first,
/// then by those for the last if it is the last.
pub open spec fn vertex_ops(
    nodes: NodeRenderers,
    point: Coord,
    is_start: bool,
    is_end: bool,
) -> Seq<DrawOpView> {
    marks(nodes.all@, point) + (if !is_start && !is_end {
        marks(nodes.mid@, point)
    } else {
        Seq::empty()
    }) + (if is_start {
        marks(nodes.start@, point)
    } else {
        Seq::empty()
    }) + (if is_end {
        marks(nodes.end@, point)
    } else {
        Seq::empty()
    })
}

/// What is drawn at the first `n` positions of a chain, position by
/// position.
pub open spec fn nodes_upto(nodes: NodeRenderers, s: Seq<Coord>, n: nat) -> Seq<DrawOpView>
    decreases n,
{
    if n == 0 || n > s.len() {
        Seq::empty()
    } else {
        nodes_upto(nodes, s, (n - 1) as nat) + vertex_ops(
            nodes,
            s[n - 1],
            n - 1 == 0,
            n - 1 == s.len() - 1,
        )
    }
}

/// What a line renderer draws for a chain: the stroked path along it, then
/// what stands at its positions, from the first to the last.
pub open spec fn line_ops(renderer: LineRenderer, s: Seq<Coord>) -> Seq<DrawOpView> {
    seq![
        DrawOpView::StrokePath {
            path: path_of(s),
            stroke: renderer.stroke.inner@,
            brush: renderer.brush.inner,
        },
    ] + nodes_upto(renderer.node_renderers, s, s.len())
}

/// What a line renderer draws for the first `n` chains, chain by chain.
pub open spec fn lines_ops_upto(renderer: LineRenderer, lines: Seq<Seq<Coord>>, n: nat) -> Seq<
    DrawOpView,
>
    decreases n,
{
    if n == 0 || n > lines.len() {
        Seq::empty()
    } else {
        lines_ops_upto(renderer, lines, (n - 1) as nat) + line_ops(renderer, lines[n - 1])
    }
}

/// Whether no operation of a list is a nested one.
pub open spec fn plain(ops: Seq<DrawOpView>) -> bool {
    forall|i: int| 0 <= i < ops.len() ==> !(#[trigger] ops[i] is Nested)
}

/// Lists without nested operations, one after the other, are without nested
/// operations.
pub proof fn lemma_plain_add(a: Seq<DrawOpView>, b: Seq<DrawOpView>)
    requires
        plain(a),
        plain(b),
    ensures
        plain(a + b),
{
    assert forall|i: int| 0 <= i < (a + b).len() implies !(#[trigger] (a + b)[i] is Nested) by {
        if i < a.len() {
            assert((a + b)[i] == a[i]);
        } else {
            assert((a + b)[i] == b[i - a.len()]);
        }
    }
}

/// What stands at a position holds no nested operation.
pub proof fn lemma_marks_plain(children: Seq<MagicValue<GeometryRenderer>>, point: Coord, n: nat)
    ensures
        plain(marks_upto(children, point, n)),
    decreases n,
{
    if !(n == 0 || n > children.len()) {
        lemma_marks_plain(children, point, (n - 1) as nat);
        lemma_plain_add(
            marks_upto(children, point, (n - 1) as nat),
            mark(children[n - 1].inner, point),
        );
    }
}

/// What stands at the positions of a chain holds no nested operation.
pub proof fn lemma_nodes_plain(nodes: NodeRenderers, s: Seq<Coord>, n: nat)
    ensures
        plain(nodes_upto(nodes, s, n)),
    decreases n,
{
    if !(n == 0 || n > s.len()) {
        lemma_nodes_plain(nodes, s, (n - 1) as nat);
        let point = s[n - 1];
        lemma_marks_plain(nodes.all@, point, nodes.all@.len());
        lemma_marks_plain(nodes.mid@, point, nodes.mid@.len());
        lemma_marks_plain(nodes.start@, point, nodes.start@.len());
        lemma_marks_plain(nodes.end@, point, nodes.end@.len());
        let a = marks(nodes.all@, point);
        let b = if !(n - 1 == 0) && !(n - 1 == s.len() - 1) {
            marks(nodes.mid@, point)
        } else {
            Seq::empty()
        };
        let c = if n - 1 == 0 {
            marks(nodes.start@, point)
        } else {
            Seq::empty()
        };
        let d = if n - 1 == s.len() - 1 {
            marks(nodes.end@, point)
        } else {
            Seq::empty()
        };
        lemma_plain_add(a, b);
        lemma_plain_add(a + b, c);
        lemma_plain_add(a + b + c, d);
        lemma_plain_add(nodes_upto(nodes, s, (n - 1) as nat), a + b + c + d);
    }
}

/// What a line renderer draws for chains holds no nested operation.
pub proof fn lemma_lines_plain(renderer: LineRenderer, lines: Seq<Seq<Coord>>, n: nat)
    ensures
        plain(lines_ops_upto(renderer, lines, n)),
    decreases n,
{
    if !(n == 0 || n > lines.len()) {
        lemma_lines_plain(renderer, lines, (n - 1) as nat);
        let s = lines[n - 1];
        lemma_nodes_plain(renderer.node_renderers, s, s.len());
        let first = seq![
            DrawOpView::StrokePath {
                path: path_of(s),
                stroke: renderer.stroke.inner@,
                brush: renderer.brush.inner,
            },
        ];
        lemma_plain_add(first, nodes_upto(renderer.node_renderers, s, s.len()));
        lemma_plain_add(lines_ops_upto(renderer, lines, (n - 1) as nat), line_ops(renderer, s));
    }
}

/// Appends what the renderers of a list draw at a position.
fn push_marks(ops: &mut Vec<DrawOp>, children: &Vec<MagicValue<GeometryRenderer>>, point: Coord)
    ensures
        op_views(final(ops)@) == op_views(old(ops)@) + marks(children@, point),
{
    let ghost before = op_views(ops@);
    let mut i: usize = 0;
    assert(op_views(ops@) =~= before + marks_upto(children@, point, 0));
    while i < children.len()
        invariant
            i <= children.len(),
            op_views(ops@) == before + marks_upto(children@, point, i as nat),
        decreases children.len() - i,
    {
        match &children[i].inner {
            GeometryRenderer::Point(_, renderer) => {
                let op = renderer.inner.circle(&point);
                proof {
                    lemma_op_views_push(ops@, op);
                }
                ops.push(op);
                assert(op_views(ops@) =~= before + marks_upto(children@, point, (i + 1) as nat));
            },
            _ => {
                assert(op_views(ops@) =~= before + marks_upto(children@, point, (i + 1) as nat));
            },
        }
        i += 1;
    }
}

impl Default for LineRenderer {
    /// A solid stroke of width 0.1 in aqua, with nothing at the positions.
    fn default() -> (r: Self)
        ensures
            r.stroke.inner@ == (StrokeView {
                width: ONE_TENTH,
                join: crate::paint::Join::Round,
                miter_limit: crate::paint::MITER_LIMIT,
                start_cap: crate::paint::Cap::Round,
                end_cap: crate::paint::Cap::Round,
                dash_pattern: Seq::empty(),
                dash_offset: 0,
            }),
            r.brush.inner == solid_of(0, 255, 255),
            r.stroke.kind@ is Fixed,
            r.brush.kind@ is Fixed,
            r.node_renderers.all@.len() == 0,
            r.node_renderers.mid@.len() == 0,
            r.node_renderers.start@.len() == 0,
            r.node_renderers.end@.len() == 0,
    {
        LineRenderer {
            stroke: MagicValue::new(Stroke::new(ONE_TENTH)),
            brush: MagicValue::new(solid_brush(0, 255, 255)),
            node_renderers: NodeRenderers::new(),
        }
    }
}

impl LineRenderer {
    /// The closed path along a chain; an empty chain gives an empty path.
    pub fn to_shape(line: &LineString) -> (path: Vec<PathEl>)
        ensures
            path@ == path_of(line@),
    {
        let mut path: Vec<PathEl> = Vec::new();
        push_path(&mut path, line);
        assert(path@ =~= path_of(line@));
        path
    }

    /// What is drawn for a chain: the stroked path along it, then what
    /// stands at its positions, from the first to the last.
    pub fn draw(&self, line: &LineString) -> (ops: Vec<DrawOp>)
        ensures
            op_views(ops@) == line_ops(*self, line@),
    {
        let mut ops: Vec<DrawOp> = Vec::new();
        let stroke = DrawOp::StrokePath {
            path: LineRenderer::to_shape(line),
            stroke: self.stroke.inner.clone(),
            brush: clone_brush(&self.brush.inner),
        };
        let ghost first = seq![stroke@];
        ops.push(stroke);
        let n: usize = line.0.len();
        let mut i: usize = 0;
        assert(op_views(ops@) =~= first + nodes_upto(self.node_renderers, line@, 0));
        while i < n
            invariant
                i <= n,
                n == line@.len(),
                op_views(ops@) == first + nodes_upto(self.node_renderers, line@, i as nat),
            decreases n - i,
        {
            let point: Coord = line.0[i];
            let is_start: bool = i == 0;
            let is_end: bool = i == n - 1;
            let ghost before = op_views(ops@);
            push_marks(&mut ops, &self.node_renderers.all, point);
            if !is_start && !is_end {
                push_marks(&mut ops, &self.node_renderers.mid, point);
            }
            if is_start {
                push_marks(&mut ops, &self.node_renderers.start, point);
            }
            if is_end {
                push_marks(&mut ops, &self.node_renderers.end, point);
            }
            assert(op_views(ops@) =~= before + vertex_ops(
                self.node_renderers,
                point,
                is_start,
                is_end,
            ));
            assert(op_views(ops@) =~= first + nodes_upto(
                self.node_renderers,
                line@,
                (i + 1) as nat,
            ));
            i += 1;
        }
        ops
    }

    /// What is drawn for several chains held elsewhere: what is drawn for
    /// each, in order.
    pub fn draw_multi_vec(&self, lines: Vec<&LineString>) -> (ops: Vec<DrawOp>)
        ensures
            op_views(ops@) == lines_ops_upto(
                *self,
                Seq::new(lines@.len(), |i: int| lines@[i]@),
                lines@.len(),
            ),
    {
        let ghost views = Seq::new(lines@.len(), |i: int| lines@[i]@);
        let mut ops: Vec<DrawOp> = Vec::new();
        let mut i: usize = 0;
        assert(op_views(ops@) =~= lines_ops_upto(*self, views, 0));
        while i < lines.len()
            invariant
                i <= lines.len(),
                views == Seq::new(lines@.len(), |i: int| lines@[i]@),
                op_views(ops@) == lines_ops_upto(*self, views, i as nat),
            decreases lines.len() - i,
        {
            let mut part: Vec<DrawOp> = self.draw(lines[i]);
            proof {
                lemma_op_views_add(ops@, part@);
            }
            ops.append(&mut part);
            i += 1;
        }
        ops
    }

    /// What is drawn for several chains: what is drawn for each, in order.
    pub fn draw_multi(&self, lines: &Vec<LineString>) -> (ops: Vec<DrawOp>)
        ensures
            op_views(ops@) == lines_ops_upto(*self, line_views(lines@), lines@.len()),
    {
        let mut ops: Vec<DrawOp> = Vec::new();
        let mut i: usize = 0;
        assert(op_views(ops@) =~= lines_ops_upto(*self, line_views(lines@), 0));
        while i < lines.len()
            invariant
                i <= lines.len(),
                op_views(ops@) == lines_ops_upto(*self, line_views(lines@), i as nat),
            decreases lines.len() - i,
        {
            let mut part: Vec<DrawOp> = self.draw(&lines[i]);
            proof {
                lemma_op_views_add(ops@, part@);
            }
            ops.append(&mut part);
            i += 1;
        }
        ops
    }
}

} // verus!
