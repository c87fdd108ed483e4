//! The scene graph: a tree of nodes, each with an optional draw command, its style
//! overrides and its children, and the depth-first cascade that resolves the style
//! of every node.
use vstd::prelude::*;

use crate::geometry::{Point, Rectangle, Rotation};
use crate::image::{ImageProps, ImageSource};
use crate::number::Fixed;
use crate::path::{path_points, same_kinds, Path, PathCommand};
use crate::color::Paint;
use crate::style::{
    cascade, combine, override_of_paint, DrawStyle, InheritedDrawStyle, OverrideView, StyleOverride, StyleView,
};

verus! {

/// What a [`DrawCommand`] is.
pub enum CommandView {
    Path(Seq<PathCommand>),
    Circle { position: Point, radius: Fixed },
    Text { text: Seq<char>, start: Point, end: Point, font: Seq<char> },
    Image { props: ImageProps },
}

/// Something a canvas is asked to draw.
#[derive(Debug, PartialEq)]
pub enum DrawCommand {
    Path(Path),
    /// A circle at `position` with the given radius.
    Circle { position: Point, radius: Fixed },
    /// A line of text between two points, in the named font.
    Text { text: String, start: Point, end: Point, font: String },
    Image { src: ImageSource, props: ImageProps },
}

impl View for DrawCommand {
    type V = CommandView;

    open spec fn view(&self) -> CommandView {
        match self {
            DrawCommand::Path(p) => CommandView::Path(p@),
            DrawCommand::Circle { position, radius } => CommandView::Circle {
                position: *position,
                radius: *radius,
            },
            DrawCommand::Text { text, start, end, font } => CommandView::Text {
                text: text@,
                start: *start,
                end: *end,
                font: font@,
            },
            DrawCommand::Image { src, props } => CommandView::Image { props: *props },
        }
    }
}

impl DrawCommand {
    pub fn path(path: Path) -> (c: DrawCommand)
        ensures
            c@ == CommandView::Path(path@),
    {
        DrawCommand::Path(path)
    }

    pub fn circle(position: Point, radius: Fixed) -> (c: DrawCommand)
        ensures
            c@ == (CommandView::Circle { position, radius }),
    {
        DrawCommand::Circle { position, radius }
    }

    pub fn image(src: ImageSource, props: ImageProps) -> (c: DrawCommand)
        ensures
            c@ == (CommandView::Image { props }),
    {
        DrawCommand::Image { src, props }
    }

    /// Mutable references to the points that place the command, in order. Everything
    /// else about the command stays as it is.
    pub fn locations_mut(&mut self) -> (r: Vec<&mut Point>)
        ensures
            r@.len() == command_points(old(self)@).len(),
            forall|i: int| 0 <= i < r@.len() ==> *r@[i] == command_points(old(self)@)[i],
            command_points(final(self)@).len() == r@.len(),
            forall|i: int|
                0 <= i < r@.len() ==> command_points(final(self)@)[i] == *final(r@[i]),
            same_shape(final(self)@, old(self)@),
    {
        match self {
            DrawCommand::Path(p) => p.locations_mut(),
            DrawCommand::Circle { position, radius } => {
                let mut v = Vec::new();
                v.push(position);
                v
            },
            DrawCommand::Text { text, start, end, font } => {
                let mut v = Vec::new();
                v.push(start);
                v.push(end);
                v
            },
            DrawCommand::Image { src, props } => {
                let mut v = Vec::new();
                v.push(&mut props.offset);
                v
            },
        }
    }

    /// The points that place the command, in order.
    pub fn locations(&self) -> (r: Vec<Point>)
        ensures
            r@ == command_points(self@),
    {
        match self {
            DrawCommand::Path(p) => path_locations(p),
            DrawCommand::Circle { position, radius } => {
                let mut v = Vec::new();
                v.push(*position);
                assert(v@ =~= command_points(self@));
                v
            },
            DrawCommand::Text { text, start, end, font } => {
                let mut v = Vec::new();
                v.push(*start);
                v.push(*end);
                assert(v@ =~= command_points(self@));
                v
            },
            DrawCommand::Image { src, props } => {
                let mut v = Vec::new();
                v.push(props.offset);
                assert(v@ =~= command_points(self@));
                v
            },
        }
    }
}

/// Whether two commands differ at most in the points that place them.
pub open spec fn same_shape(a: CommandView, b: CommandView) -> bool {
    match (a, b) {
        (CommandView::Path(x), CommandView::Path(y)) => same_kinds(x, y),
        (CommandView::Circle { radius: r1, .. }, CommandView::Circle { radius: r2, .. }) => r1
            == r2,
        (
            CommandView::Text { text: t1, font: f1, .. },
            CommandView::Text { text: t2, font: f2, .. },
        ) => t1 == t2 && f1 == f2,
        (CommandView::Image { props: p1 }, CommandView::Image { props: p2 }) => p1.image_width
            == p2.image_width && p1.image_height == p2.image_height && p1.rotation == p2.rotation,
        _ => false,
    }
}

/// The points that place a command.
pub open spec fn command_points(c: CommandView) -> Seq<Point> {
    match c {
        CommandView::Path(cs) => path_points(cs),
        CommandView::Circle { position, radius } => seq![position],
        CommandView::Text { text, start, end, font } => seq![start, end],
        CommandView::Image { props } => seq![props.offset],
    }
}

impl Path {
    /// The defining points of every command, in order.
    pub fn locations(&self) -> (r: Vec<Point>)
        ensures
            r@ == path_points(self@),
    {
        path_locations(self)
    }
}

fn path_locations(p: &Path) -> (r: Vec<Point>)
    ensures
        r@ == path_points(p@),
{
    let cs = p.commands();
    let mut out: Vec<Point> = Vec::new();
    let mut i: usize = 0;
    while i < cs.len()
        invariant
            i <= cs@.len(),
            cs@ == p@,
            out@ == path_points(cs@.subrange(0, i as int)),
        decreases cs@.len() - i,
    {
        let mut pts = cs[i].locations();
        out.append(&mut pts);
        proof {
            let next = cs@.subrange(0, i + 1);
            assert(next.drop_last() =~= cs@.subrange(0, i as int));
        }
        i = i + 1;
    }
    assert(cs@.subrange(0, i as int) =~= cs@);
    out
}

/// A node of a drawing: an optional command, the node's style overrides, and its
/// children in order.
///
/// A node without a command groups its children: it draws nothing itself, but its
/// style overrides still reach its descendants.
#[derive(Debug)]
pub struct Drawing {
    pub style: InheritedDrawStyle,
    pub command: Option<DrawCommand>,
    pub children: Vec<Drawing>,
}

/// What a [`DrawingInstruction`] is.
pub struct InstructionView {
    pub command: CommandView,
    pub style: StyleView,
}

/// The instruction a node yields under its resolved style: one if it has a command,
/// none otherwise.
pub open spec fn own_instructions(d: Drawing, style: StyleView) -> Seq<InstructionView> {
    match d.command {
        Some(c) => seq![InstructionView { command: c@, style }],
        None => Seq::empty(),
    }
}

/// The instructions of a sequence of sibling subtrees whose parent resolved to
/// `parent`: each node before its children, children from left to right, and each
/// node's style the cascade of its overrides onto its parent's resolved style.
pub open spec fn forest_instructions(cs: Seq<Drawing>, parent: StyleView) -> Seq<
    InstructionView,
>
    decreases cs,
{
    if cs.len() == 0 {
        Seq::empty()
    } else {
        let d = cs[0];
        let s = combine(d.style@, parent);
        proof {
            lemma_first_children_decrease(cs);
        }
        own_instructions(d, s) + forest_instructions(d.children@, s) + forest_instructions(
            cs.drop_first(),
            parent,
        )
    }
}

/// The first subtree's children, and the siblings after it, are smaller than the
/// whole sequence of siblings.
pub proof fn lemma_first_children_decrease(cs: Seq<Drawing>)
    requires
        cs.len() > 0,
    ensures
        decreases_to!(cs => cs[0].children@),
        decreases_to!(cs => cs.drop_first()),
{
    broadcast use vstd::std_specs::vec::axiom_vec_decreases_to_view;

    let d = cs[0];
    assert(decreases_to!(cs => d));
    assert(decreases_to!(d => d.children));
    assert(decreases_to!(d.children => d.children@));
    assert(cs.drop_first() =~= cs.subrange(1, cs.len() as int));
}

/// The instructions of a whole drawing, whose root inherits from nothing.
pub open spec fn instructions_of(root: Drawing) -> Seq<InstructionView> {
    forest_instructions(seq![root], StyleView::empty())
}

/// The number of nodes of a sequence of sibling subtrees.
pub open spec fn forest_size(cs: Seq<Drawing>) -> nat
    decreases cs,
{
    if cs.len() == 0 {
        0
    } else {
        proof {
            lemma_first_children_decrease(cs);
        }
        1 + forest_size(cs[0].children@) + forest_size(cs.drop_first())
    }
}

/// The instructions of two runs of siblings are those of the first run, then those
/// of the second: siblings are visited from left to right.
pub proof fn lemma_forest_instructions_concat(a: Seq<Drawing>, b: Seq<Drawing>, parent: StyleView)
    ensures
        forest_instructions(a + b, parent) == forest_instructions(a, parent)
            + forest_instructions(b, parent),
    decreases a.len(),
{
    if a.len() == 0 {
        assert(a + b =~= b);
        assert(forest_instructions(a, parent) =~= Seq::empty());
        assert(forest_instructions(b, parent) =~= Seq::<InstructionView>::empty()
            + forest_instructions(b, parent));
    } else {
        let ab = a + b;
        assert(ab[0] == a[0]);
        assert(ab.drop_first() =~= a.drop_first() + b);
        lemma_forest_instructions_concat(a.drop_first(), b, parent);
        let d = a[0];
        let s = combine(d.style@, parent);
        assert(forest_instructions(ab, parent) == own_instructions(d, s) + forest_instructions(
            d.children@,
            s,
        ) + forest_instructions(ab.drop_first(), parent));
        assert(forest_instructions(ab, parent) =~= forest_instructions(a, parent)
            + forest_instructions(b, parent));
    }
}

/// A node's instructions come before those of its children: the node's own
/// instruction, if it has a command, then its children's, in order. A node without a
/// command yields nothing itself, while its children are resolved against its style.
pub proof fn lemma_preorder(d: Drawing, parent: StyleView)
    ensures
        forest_instructions(seq![d], parent) == own_instructions(d, combine(d.style@, parent))
            + forest_instructions(d.children@, combine(d.style@, parent)),
        d.command is None ==> forest_instructions(seq![d], parent) == forest_instructions(
            d.children@,
            combine(d.style@, parent),
        ),
{
    let cs = seq![d];
    let s = combine(d.style@, parent);
    assert(cs[0] == d);
    assert(cs.drop_first() =~= Seq::<Drawing>::empty());
    assert(forest_instructions(cs.drop_first(), parent) =~= Seq::<InstructionView>::empty());
    assert(forest_instructions(cs, parent) =~= own_instructions(d, s) + forest_instructions(
        d.children@,
        s,
    ));
    if d.command is None {
        assert(own_instructions(d, s) =~= Seq::<InstructionView>::empty());
        assert(forest_instructions(cs, parent) =~= forest_instructions(d.children@, s));
    }
}

/// A node whose ancestors, from the root down, carry the overrides `os` is resolved
/// to the cascade of `os` followed by its own overrides: its own instruction, if any,
/// has that style, and its children are resolved against it.
pub proof fn lemma_node_style_is_cascade(os: Seq<OverrideView>, d: Drawing)
    ensures
        forest_instructions(seq![d], cascade(os)) == own_instructions(d, cascade(os.push(d.style@)))
            + forest_instructions(d.children@, cascade(os.push(d.style@))),
{
    lemma_preorder(d, cascade(os));
    assert(os.push(d.style@).drop_last() =~= os);
    assert(cascade(os.push(d.style@)) == combine(d.style@, cascade(os)));
}

/// The number of nodes with a command in a run of sibling subtrees.
pub open spec fn forest_commands(cs: Seq<Drawing>) -> nat
    decreases cs,
{
    if cs.len() == 0 {
        0
    } else {
        proof {
            lemma_first_children_decrease(cs);
        }
        (if cs[0].command is Some {
            1nat
        } else {
            0nat
        }) + forest_commands(cs[0].children@) + forest_commands(cs.drop_first())
    }
}

/// The walk yields exactly one instruction per node with a command, whatever style
/// the run is resolved against: grouping nodes yield nothing.
pub proof fn lemma_one_instruction_per_command(cs: Seq<Drawing>, parent: StyleView)
    ensures
        forest_instructions(cs, parent).len() == forest_commands(cs),
    decreases cs,
{
    if cs.len() > 0 {
        lemma_first_children_decrease(cs);
        let d = cs[0];
        let s = combine(d.style@, parent);
        lemma_one_instruction_per_command(d.children@, s);
        lemma_one_instruction_per_command(cs.drop_first(), parent);
    }
}

/// A drawing without a command and without children yields no instruction.
pub proof fn lemma_empty_drawing(d: Drawing)
    requires
        d.command is None,
        d.children@.len() == 0,
    ensures
        instructions_of(d) == Seq::<InstructionView>::empty(),
{
    lemma_preorder(d, StyleView::empty());
    assert(forest_instructions(d.children@, combine(d.style@, StyleView::empty()))
        =~= Seq::<InstructionView>::empty());
}

/// Whether the instruction draws text or an image, which a backend may refuse.
pub open spec fn is_unsupported(ins: InstructionView) -> bool {
    ins.command is Text || ins.command is Image
}

/// A command paired with the style it is drawn with.
#[derive(Debug)]
pub struct DrawingInstruction<'a> {
    pub command: &'a DrawCommand,
    pub style: DrawStyle,
}

impl<'a> View for DrawingInstruction<'a> {
    type V = InstructionView;

    open spec fn view(&self) -> InstructionView {
        InstructionView { command: self.command@, style: self.style@ }
    }
}

impl<'a> DrawingInstruction<'a> {
    pub fn new(command: &'a DrawCommand, style: DrawStyle) -> (r: DrawingInstruction<'a>)
        ensures
            r.command == command,
            r@ == (InstructionView { command: command@, style: style@ }),
    {
        DrawingInstruction { command, style }
    }

    pub fn command(&self) -> (r: &DrawCommand)
        ensures
            r == self.command,
    {
        self.command
    }

    pub fn style(&self) -> (r: &DrawStyle)
        ensures
            r == self.style,
    {
        &self.style
    }

    pub fn stroke_width(&self) -> (r: Option<Fixed>)
        ensures
            r == self.style.stroke_width,
    {
        self.style.stroke_width
    }

    pub fn fill(&self) -> (r: Option<&Paint>)
        ensures
            match r {
                None => self.style.fill is None,
                Some(p) => self.style.fill == Some(*p),
            },
    {
        self.style.fill()
    }

    pub fn stroke(&self) -> (r: Option<&Paint>)
        ensures
            match r {
                None => self.style.stroke is None,
                Some(p) => self.style.stroke == Some(*p),
            },
    {
        self.style.stroke()
    }
}

/// The instructions still owed by a stack of (node, parent's resolved style) pairs,
/// whose top is its last entry.
pub open spec fn stack_instructions(st: Seq<(&Drawing, DrawStyle)>) -> Seq<InstructionView>
    decreases st.len(),
{
    if st.len() == 0 {
        Seq::empty()
    } else {
        forest_instructions(seq![*st.last().0], st.last().1@) + stack_instructions(
            st.drop_last(),
        )
    }
}

/// The number of nodes a stack still has to visit.
pub open spec fn stack_size(st: Seq<(&Drawing, DrawStyle)>) -> nat
    decreases st.len(),
{
    if st.len() == 0 {
        0
    } else {
        forest_size(seq![*st.last().0]) + stack_size(st.drop_last())
    }
}

proof fn lemma_single_forest(d: Drawing, parent: StyleView)
    ensures
        forest_size(seq![d]) == 1 + forest_size(d.children@),
        forest_instructions(seq![d], parent) == own_instructions(d, combine(d.style@, parent))
            + forest_instructions(d.children@, combine(d.style@, parent)),
{
    let cs = seq![d];
    assert(cs[0] == d);
    assert(cs.drop_first() =~= Seq::<Drawing>::empty());
    assert(forest_size(cs.drop_first()) == 0);
    lemma_preorder(d, parent);
}

proof fn lemma_forest_split_first(cs: Seq<Drawing>, parent: StyleView)
    requires
        cs.len() > 0,
    ensures
        forest_instructions(cs, parent) == forest_instructions(seq![cs[0]], parent)
            + forest_instructions(cs.drop_first(), parent),
        forest_size(cs) == forest_size(seq![cs[0]]) + forest_size(cs.drop_first()),
{
    assert(cs =~= seq![cs[0]] + cs.drop_first());
    lemma_forest_instructions_concat(seq![cs[0]], cs.drop_first(), parent);
    lemma_single_forest(cs[0], parent);
}

/// Pushing the children in reverse order onto `base`, each paired with the style
/// `s`, owes the children's instructions in order, then those `base` owed.
proof fn lemma_push_children(
    base: Seq<(&Drawing, DrawStyle)>,
    st: Seq<(&Drawing, DrawStyle)>,
    cs: Seq<Drawing>,
    s: StyleView,
)
    requires
        st.len() == base.len() + cs.len(),
        forall|j: int| 0 <= j < base.len() ==> st[j] == base[j],
        forall|t: int|
            0 <= t < cs.len() ==> *(#[trigger] st[base.len() + t]).0 == cs[cs.len() - 1 - t]
                && st[base.len() + t].1@ == s,
    ensures
        stack_instructions(st) == forest_instructions(cs, s) + stack_instructions(base),
        stack_size(st) == forest_size(cs) + stack_size(base),
    decreases cs.len(),
{
    if cs.len() == 0 {
        assert(st =~= base);
        assert(forest_instructions(cs, s) =~= Seq::<InstructionView>::empty());
        assert(stack_instructions(st) =~= forest_instructions(cs, s) + stack_instructions(base));
    } else {
        let st2 = st.drop_last();
        let cs2 = cs.drop_first();
        assert forall|t: int| 0 <= t < cs2.len() implies *(#[trigger] st2[base.len() + t]).0
            == cs2[cs2.len() - 1 - t] && st2[base.len() + t].1@ == s by {
            assert(st2[base.len() + t] == st[base.len() + t]);
        }
        lemma_push_children(base, st2, cs2, s);
        let top = st.last();
        assert(top == st[base.len() + (cs.len() - 1)]);
        assert(*top.0 == cs[0]);
        lemma_forest_split_first(cs, s);
        assert(stack_instructions(st) =~= forest_instructions(cs, s) + stack_instructions(base));
    }
}

/// A depth-first, pre-order walk over a drawing that yields one instruction per node
/// with a command, each with the node's resolved style.
pub struct DrawingIter<'a> {
    stack: Vec<(&'a Drawing, DrawStyle)>,
}

impl<'a> DrawingIter<'a> {
    /// The instructions the walk has still to yield.
    pub closed spec fn pending(&self) -> Seq<InstructionView> {
        stack_instructions(self.stack@)
    }

    pub fn new(root: &'a Drawing) -> (it: DrawingIter<'a>)
        ensures
            it.pending() == instructions_of(*root),
    {
        let mut stack = Vec::new();
        let start = DrawStyle::empty();
        stack.push((root, start));
        proof {
            let st = stack@;
            assert(st.last().0 == root);
            assert(st.last().1@ == StyleView::empty());
            assert(st.drop_last() =~= Seq::<(&Drawing, DrawStyle)>::empty());
            assert(stack_instructions(st.drop_last()) =~= Seq::<InstructionView>::empty());
            assert(stack_instructions(st) =~= instructions_of(*root));
        }
        DrawingIter { stack }
    }

    /// The next instruction of the walk, or `None` once every node has been visited.
    pub fn next(&mut self) -> (r: Option<DrawingInstruction<'a>>)
        ensures
            old(self).pending().len() == 0 <==> r is None,
            r matches Some(i) ==> old(self).pending() == seq![i@] + final(self).pending(),
            r is None ==> final(self).pending() == old(self).pending(),
    {
        loop
            invariant
                stack_instructions(self.stack@) == stack_instructions(old(self).stack@),
            decreases stack_size(self.stack@),
        {
            let ghost st = self.stack@;
            match self.stack.pop() {
                None => {
                    return None;
                },
                Some(entry) => {
                    let (node, parent) = entry;
                    let style = node.style.combine_styles(&parent);
                    let ghost base = self.stack@;
                    assert(base =~= st.drop_last());
                    let n = node.children.len();
                    let mut k = n;
                    while k > 0
                        invariant
                            k <= n,
                            n == node.children@.len(),
                            self.stack@.len() == base.len() + (n - k),
                            forall|j: int| 0 <= j < base.len() ==> self.stack@[j] == base[j],
                            forall|t: int|
                                0 <= t < n - k ==> *(#[trigger] self.stack@[base.len() + t]).0
                                    == node.children@[n - 1 - t] && self.stack@[base.len()
                                    + t].1@ == style@,
                        decreases k,
                    {
                        k = k - 1;
                        self.stack.push((&node.children[k], style.copy()));
                    }
                    proof {
                        lemma_push_children(base, self.stack@, node.children@, style@);
                        lemma_single_forest(*node, parent@);
                    }
                    match &node.command {
                        Some(command) => {
                            let r = DrawingInstruction { command, style };
                            return Some(r);
                        },
                        None => {
                            assert(stack_instructions(self.stack@) =~= stack_instructions(st));
                        },
                    }
                },
            }
        }
    }
}

impl Drawing {
    /// A node that draws `command` with the given overrides, without children.
    pub fn new(command: DrawCommand, style: InheritedDrawStyle) -> (d: Drawing)
        ensures
            d.command == Some(command),
            d.style == style,
            d.children@.len() == 0,
    {
        Drawing { style, command: Some(command), children: Vec::new() }
    }

    pub fn new_with_children(
        command: Option<DrawCommand>,
        style: InheritedDrawStyle,
        children: Vec<Drawing>,
    ) -> (d: Drawing)
        ensures
            d.command == command,
            d.style == style,
            d.children == children,
    {
        Drawing { style, command, children }
    }

    /// A grouping node: no command, only style overrides for its descendants.
    pub fn from_style(style: InheritedDrawStyle) -> (d: Drawing)
        ensures
            d.command is None,
            d.style == style,
            d.children@.len() == 0,
    {
        Drawing { style, command: None, children: Vec::new() }
    }

    /// A node with no command, no overrides and no children.
    pub fn empty() -> (d: Drawing)
        ensures
            d.command is None,
            d.style@ == OverrideView::inherit_all(),
            d.children@.len() == 0,
    {
        Drawing { style: InheritedDrawStyle::inherit_all(), command: None, children: Vec::new() }
    }

    pub fn add_child(&mut self, child: Drawing)
        ensures
            final(self).children@ == old(self).children@.push(child),
            final(self).command == old(self).command,
            final(self).style == old(self).style,
    {
        self.children.push(child);
    }

    pub fn extend_children(&mut self, children: Vec<Drawing>)
        ensures
            final(self).children@ == old(self).children@ + children@,
            final(self).command == old(self).command,
            final(self).style == old(self).style,
    {
        let mut children = children;
        self.children.append(&mut children);
    }

    pub fn command(&self) -> (r: Option<&DrawCommand>)
        ensures
            match r {
                None => self.command is None,
                Some(c) => self.command == Some(*c),
            },
    {
        self.command.as_ref()
    }

    pub fn children(&self) -> (r: &[Drawing])
        ensures
            r@ == self.children@,
    {
        self.children.as_slice()
    }

    pub fn style(&self) -> (r: &InheritedDrawStyle)
        ensures
            *r == self.style,
    {
        &self.style
    }

    pub fn with_command(self, command: DrawCommand) -> (d: Drawing)
        ensures
            d.command == Some(command),
            d.style == self.style,
            d.children == self.children,
    {
        Drawing { command: Some(command), ..self }
    }

    pub fn set_command(&mut self, command: DrawCommand)
        ensures
            final(self).command == Some(command),
            final(self).style == old(self).style,
            final(self).children == old(self).children,
    {
        self.command = Some(command);
    }

    pub fn with_style(self, style: InheritedDrawStyle) -> (d: Drawing)
        ensures
            d.style == style,
            d.command == self.command,
            d.children == self.children,
    {
        Drawing { style, ..self }
    }

    pub fn set_style(&mut self, style: InheritedDrawStyle)
        ensures
            final(self).style == style,
            final(self).command == old(self).command,
            final(self).children == old(self).children,
    {
        self.style = style;
    }

    /// Sets how this node overrides the fill.
    pub fn set_fill(&mut self, fill: StyleOverride<Paint>)
        ensures
            final(self).style@ == (OverrideView {
                fill_color: override_of_paint(fill),
                ..old(self).style@
            }),
            final(self).command == old(self).command,
            final(self).children == old(self).children,
    {
        self.style.set_fill(fill);
    }

    /// Sets how this node overrides the stroke.
    pub fn set_stroke(&mut self, stroke: StyleOverride<Paint>)
        ensures
            final(self).style@ == (OverrideView {
                stroke_color: override_of_paint(stroke),
                ..old(self).style@
            }),
            final(self).command == old(self).command,
            final(self).children == old(self).children,
    {
        self.style.set_stroke(stroke);
    }

    /// Sets how this node overrides the stroke width.
    pub fn set_stroke_width(&mut self, stroke_width: StyleOverride<Fixed>)
        ensures
            final(self).style@ == (OverrideView { stroke_width, ..old(self).style@ }),
            final(self).command == old(self).command,
            final(self).children == old(self).children,
    {
        self.style.set_stroke_width(stroke_width);
    }

    /// A walk over the drawing's instructions.
    pub fn iter(&self) -> (it: DrawingIter<'_>)
        ensures
            it.pending() == instructions_of(*self),
    {
        DrawingIter::new(self)
    }

    /// Every instruction of the drawing, in the order of the walk.
    pub fn instructions(&self) -> (r: Vec<DrawingInstruction<'_>>)
        ensures
            r@.len() == instructions_of(*self).len(),
            forall|i: int| 0 <= i < r@.len() ==> #[trigger] r@[i]@ == instructions_of(*self)[i],
    {
        let mut it = DrawingIter::new(self);
        let mut out: Vec<DrawingInstruction<'_>> = Vec::new();
        loop
            invariant
                out@.len() + it.pending().len() == instructions_of(*self).len(),
                forall|i: int| 0 <= i < out@.len() ==> #[trigger] out@[i]@ == instructions_of(*self)[i],
                forall|i: int|
                    0 <= i < it.pending().len() ==> #[trigger] it.pending()[i] == instructions_of(
                        *self,
                    )[out@.len() + i],
            decreases it.pending().len(),
        {
            let ghost before = it.pending();
            match it.next() {
                None => {
                    return out;
                },
                Some(ins) => {
                    proof {
                        assert(before[0] == ins@);
                        assert forall|i: int| 0 <= i < it.pending().len() implies #[trigger] it.pending()[i]
                            == instructions_of(*self)[out@.len() + 1 + i] by {
                            assert(before[i + 1] == it.pending()[i]);
                        }
                    }
                    out.push(ins);
                },
            }
        }
    }
}

/// The points a node's own command places.
pub open spec fn own_points(d: Drawing) -> Seq<Point> {
    match d.command {
        Some(c) => command_points(c@),
        None => Seq::empty(),
    }
}

/// Every point of a sequence of sibling subtrees in document order: a node's own
/// points, then its children's, then the next sibling's.
pub open spec fn forest_points(cs: Seq<Drawing>) -> Seq<Point>
    decreases cs,
{
    if cs.len() == 0 {
        Seq::empty()
    } else {
        proof {
            lemma_first_children_decrease(cs);
        }
        own_points(cs[0]) + forest_points(cs[0].children@) + forest_points(cs.drop_first())
    }
}

proof fn lemma_forest_points_concat(a: Seq<Drawing>, b: Seq<Drawing>)
    ensures
        forest_points(a + b) == forest_points(a) + forest_points(b),
    decreases a.len(),
{
    if a.len() == 0 {
        assert(a + b =~= b);
        assert(forest_points(a + b) =~= forest_points(a) + forest_points(b));
    } else {
        let ab = a + b;
        assert(ab[0] == a[0]);
        assert(ab.drop_first() =~= a.drop_first() + b);
        lemma_forest_points_concat(a.drop_first(), b);
        assert(forest_points(ab) =~= forest_points(a) + forest_points(b));
    }
}

proof fn lemma_single_points(d: Drawing)
    ensures
        forest_points(seq![d]) == own_points(d) + forest_points(d.children@),
{
    let cs = seq![d];
    assert(cs[0] == d);
    assert(cs.drop_first() =~= Seq::<Drawing>::empty());
    assert(forest_points(cs.drop_first()) =~= Seq::<Point>::empty());
    assert(forest_points(cs) =~= own_points(d) + forest_points(d.children@));
}

fn collect_locations(d: &Drawing, out: &mut Vec<Point>)
    ensures
        final(out)@ == old(out)@ + forest_points(seq![*d]),
    decreases d,
{
    let ghost start = out@;
    if let Some(c) = &d.command {
        let mut v = c.locations();
        out.append(&mut v);
    }
    assert(out@ =~= start + own_points(*d));
    let ghost mid = out@;
    let mut i: usize = 0;
    proof {
        assert(d.children@.subrange(0, 0) =~= Seq::<Drawing>::empty());
        assert(mid =~= mid + forest_points(d.children@.subrange(0, 0)));
    }
    while i < d.children.len()
        invariant
            i <= d.children@.len(),
            out@ == mid + forest_points(d.children@.subrange(0, i as int)),
        decreases d.children@.len() - i,
    {
        proof {
            broadcast use vstd::std_specs::vec::axiom_vec_decreases_to_view;

            assert(decreases_to!(*d => d.children));
            assert(decreases_to!(d.children => d.children@));
            assert(decreases_to!(d.children@ => d.children@[i as int]));
        }
        collect_locations(&d.children[i], out);
        proof {
            let prev = d.children@.subrange(0, i as int);
            assert(d.children@.subrange(0, i + 1) =~= prev + seq![d.children@[i as int]]);
            lemma_forest_points_concat(prev, seq![d.children@[i as int]]);
        }
        i = i + 1;
    }
    proof {
        assert(d.children@.subrange(0, i as int) =~= d.children@);
        lemma_single_points(*d);
        assert(out@ =~= start + forest_points(seq![*d]));
    }
}

/// Whether `b` is the box spanned by the componentwise least and greatest of the points.
pub open spec fn spans_points(pts: Seq<Point>, b: Rectangle) -> bool {
    &&& forall|i: int|
        0 <= i < pts.len() ==> {
            &&& b.top_left.x.value() <= (#[trigger] pts[i]).x.value()
            &&& b.top_left.y.value() <= pts[i].y.value()
            &&& pts[i].x.value() <= b.bottom_right.x.value()
            &&& pts[i].y.value() <= b.bottom_right.y.value()
        }
    &&& exists|i: int| 0 <= i < pts.len() && b.top_left.x == (#[trigger] pts[i]).x
    &&& exists|i: int| 0 <= i < pts.len() && b.top_left.y == (#[trigger] pts[i]).y
    &&& exists|i: int| 0 <= i < pts.len() && b.bottom_right.x == (#[trigger] pts[i]).x
    &&& exists|i: int| 0 <= i < pts.len() && b.bottom_right.y == (#[trigger] pts[i]).y
}

impl Drawing {
    /// The number of nodes: this one and all its descendants.
    pub fn num_drawings(&self) -> (r: usize)
        requires
            forest_size(seq![*self]) <= usize::MAX,
        ensures
            r == forest_size(seq![*self]),
        decreases self,
    {
        let mut total: usize = 1;
        let mut i: usize = 0;
        proof {
            lemma_single_forest(*self, StyleView::empty());
            assert(self.children@.subrange(0, 0) =~= Seq::<Drawing>::empty());
        }
        while i < self.children.len()
            invariant
                i <= self.children@.len(),
                forest_size(seq![*self]) == 1 + forest_size(self.children@),
                forest_size(seq![*self]) <= usize::MAX,
                total == 1 + forest_size(self.children@.subrange(0, i as int)),
            decreases self.children@.len() - i,
        {
            let ghost prev = self.children@.subrange(0, i as int);
            let ghost c = self.children@[i as int];
            proof {
                broadcast use vstd::std_specs::vec::axiom_vec_decreases_to_view;

                assert(decreases_to!(*self => self.children));
                assert(decreases_to!(self.children => self.children@));
                assert(decreases_to!(self.children@ => self.children@[i as int]));
                assert(self.children@ =~= prev + seq![c] + self.children@.subrange(
                    i + 1,
                    self.children@.len() as int,
                ));
                lemma_forest_size_concat(prev + seq![c], self.children@.subrange(i + 1, self.children@.len() as int));
                lemma_forest_size_concat(prev, seq![c]);
            }
            let n = self.children[i].num_drawings();
            total = total + n;
            proof {
                assert(self.children@.subrange(0, i + 1) =~= prev + seq![c]);
            }
            i = i + 1;
        }
        proof {
            assert(self.children@.subrange(0, i as int) =~= self.children@);
        }
        total
    }

    /// Every point placed by the commands of this node and its descendants, in
    /// document order. Linear in the size of the tree.
    pub fn locations(&self) -> (r: Vec<Point>)
        ensures
            r@ == forest_points(seq![*self]),
    {
        let mut out = Vec::new();
        collect_locations(self, &mut out);
        assert(out@ =~= forest_points(seq![*self]));
        out
    }

    /// The box spanned by every point of the drawing; `None` when the drawing places
    /// no point.
    pub fn bounding_box(&self) -> (r: Option<Rectangle>)
        ensures
            r is None <==> forest_points(seq![*self]).len() == 0,
            r matches Some(b) ==> spans_points(forest_points(seq![*self]), b),
    {
        let pts = self.locations();
        let n = pts.len();
        if n == 0 {
            return None;
        }
        let mut min = pts[0];
        let mut max = pts[0];
        let mut i: usize = 1;
        while i < n
            invariant
                1 <= i <= n,
                n == pts@.len(),
                forall|j: int|
                    0 <= j < i ==> {
                        &&& min.x.value() <= (#[trigger] pts@[j]).x.value()
                        &&& min.y.value() <= pts@[j].y.value()
                        &&& pts@[j].x.value() <= max.x.value()
                        &&& pts@[j].y.value() <= max.y.value()
                    },
                exists|j: int| 0 <= j < i && min.x == (#[trigger] pts@[j]).x,
                exists|j: int| 0 <= j < i && min.y == (#[trigger] pts@[j]).y,
                exists|j: int| 0 <= j < i && max.x == (#[trigger] pts@[j]).x,
                exists|j: int| 0 <= j < i && max.y == (#[trigger] pts@[j]).y,
            decreases n - i,
        {
            let p = pts[i];
            if p.x.hundredths < min.x.hundredths {
                min.x = p.x;
            }
            if p.y.hundredths < min.y.hundredths {
                min.y = p.y;
            }
            if p.x.hundredths > max.x.hundredths {
                max.x = p.x;
            }
            if p.y.hundredths > max.y.hundredths {
                max.y = p.y;
            }
            i = i + 1;
        }
        Some(
            Rectangle {
                top_left: min,
                bottom_right: max,
                rot: Rotation { cos: Fixed { hundredths: 100 }, sin: Fixed { hundredths: 0 } },
            },
        )
    }
}

proof fn lemma_forest_size_concat(a: Seq<Drawing>, b: Seq<Drawing>)
    ensures
        forest_size(a + b) == forest_size(a) + forest_size(b),
    decreases a.len(),
{
    if a.len() == 0 {
        assert(a + b =~= b);
    } else {
        let ab = a + b;
        assert(ab[0] == a[0]);
        assert(ab.drop_first() =~= a.drop_first() + b);
        lemma_forest_size_concat(a.drop_first(), b);
    }
}

/// Whether two nodes' commands differ at most in the points that place them.
pub open spec fn same_command_shape(a: Option<DrawCommand>, b: Option<DrawCommand>) -> bool {
    match (a, b) {
        (None, None) => true,
        (Some(x), Some(y)) => same_shape(x@, y@),
        _ => false,
    }
}

/// Whether two runs of sibling subtrees differ at most in the points their commands
/// place: the same number of nodes in the same places, the same overrides, and
/// commands of the same shape.
pub open spec fn same_forest_shape(a: Seq<Drawing>, b: Seq<Drawing>) -> bool
    decreases a,
{
    if a.len() == 0 {
        b.len() == 0
    } else {
        proof {
            lemma_first_children_decrease(a);
        }
        &&& b.len() == a.len()
        &&& a[0].style == b[0].style
        &&& same_command_shape(a[0].command, b[0].command)
        &&& same_forest_shape(a[0].children@, b[0].children@)
        &&& same_forest_shape(a.drop_first(), b.drop_first())
    }
}

proof fn lemma_forest_cons_facts()
    ensures
        forall|d: Drawing|
            #[trigger] forest_points(seq![d]) == own_points(d) + forest_points(d.children@),
        forall|d1: Drawing, d2: Drawing|
            #[trigger] same_forest_shape(seq![d1], seq![d2]) <==> (d1.style == d2.style
                && same_command_shape(d1.command, d2.command) && same_forest_shape(
                d1.children@,
                d2.children@,
            )),
        forall|a: Seq<Drawing>, b: Seq<Drawing>|
            a.len() == 1 ==> #[trigger] forest_points(a + b) == own_points(a[0]) + forest_points(
                a[0].children@,
            ) + forest_points(b),
        forall|a1: Seq<Drawing>, b1: Seq<Drawing>, a2: Seq<Drawing>, b2: Seq<Drawing>|
            a1.len() == 1 && a2.len() == 1 ==> (#[trigger] same_forest_shape(a1 + b1, a2 + b2)
                <==> (a1[0].style == a2[0].style && same_command_shape(
                a1[0].command,
                a2[0].command,
            ) && same_forest_shape(a1[0].children@, a2[0].children@) && same_forest_shape(
                b1,
                b2,
            ))),
{
    assert forall|d: Drawing| #[trigger]
        forest_points(seq![d]) == own_points(d) + forest_points(d.children@) by {
        lemma_single_points(d);
    }
    assert forall|d1: Drawing, d2: Drawing|
        #[trigger] same_forest_shape(seq![d1], seq![d2]) <==> (d1.style == d2.style
            && same_command_shape(d1.command, d2.command) && same_forest_shape(
            d1.children@,
            d2.children@,
        )) by {
        let x = seq![d1];
        let y = seq![d2];
        assert(x[0] == d1 && y[0] == d2);
        assert(x.drop_first() =~= Seq::<Drawing>::empty());
        assert(y.drop_first() =~= Seq::<Drawing>::empty());
        assert(same_forest_shape(x.drop_first(), y.drop_first()));
        assert(same_forest_shape(x, y) == (d1.style == d2.style && same_command_shape(
            d1.command,
            d2.command,
        ) && same_forest_shape(d1.children@, d2.children@) && same_forest_shape(
            x.drop_first(),
            y.drop_first(),
        )));
    }
    assert forall|a: Seq<Drawing>, b: Seq<Drawing>|
        a.len() == 1 implies #[trigger] forest_points(a + b) == own_points(a[0]) + forest_points(
        a[0].children@,
    ) + forest_points(b) by {
        let ab = a + b;
        assert(ab[0] == a[0]);
        assert(ab.drop_first() =~= b);
    }
    assert forall|a1: Seq<Drawing>, b1: Seq<Drawing>, a2: Seq<Drawing>, b2: Seq<Drawing>|
        a1.len() == 1 && a2.len() == 1 implies (#[trigger] same_forest_shape(a1 + b1, a2 + b2)
        <==> (a1[0].style == a2[0].style && same_command_shape(a1[0].command, a2[0].command)
        && same_forest_shape(a1[0].children@, a2[0].children@) && same_forest_shape(b1, b2))) by {
        let x = a1 + b1;
        let y = a2 + b2;
        assert(x[0] == a1[0]);
        assert(y[0] == a2[0]);
        assert(x.drop_first() =~= b1);
        assert(y.drop_first() =~= b2);
        if b1.len() != b2.len() {
            if b1.len() == 0 {
                assert(!same_forest_shape(b1, b2));
            } else {
                assert(!same_forest_shape(b1, b2));
            }
        }
    }
}

/// Mutable references to every point of a run of sibling subtrees, in document
/// order.
fn forest_locations_mut<'a>(s: &'a mut [Drawing]) -> (r: Vec<&'a mut Point>)
    ensures
        r@.len() == forest_points(old(s)@).len(),
        forall|i: int| 0 <= i < r@.len() ==> *r@[i] == forest_points(old(s)@)[i],
        forest_points(final(s)@).len() == r@.len(),
        forall|i: int| 0 <= i < r@.len() ==> forest_points(final(s)@)[i] == *final(r@[i]),
        same_forest_shape(final(s)@, old(s)@),
    decreases old(s)@,
{
    proof {
        lemma_forest_cons_facts();
    }
    if s.len() == 0 {
        proof {
            assert(final(s)@ =~= Seq::<Drawing>::empty());
        }
        return Vec::new();
    }
    let ghost s0 = s@;
    let (first, rest) = s.split_at_mut(1);
    let ghost first0 = first@;
    let ghost rest0 = rest@;
    proof {
        assert(s0 =~= first0 + rest0);
    }
    let head = match first.first_mut() {
        Some(d) => d,
        None => {
            return Vec::new();
        },
    };
    let ghost h0 = *head;
    proof {
        assert(decreases_to!(s0 => s0[0]));
        assert(decreases_to!(s0 => rest0)) by {
            assert(rest0 =~= s0.subrange(1, s0.len() as int));
        }
    }
    let mut v = head.locations_mut();
    let mut t = forest_locations_mut(rest);
    let ghost v0 = v@;
    let ghost t0 = t@;
    v.append(&mut t);
    proof {
        assert(v@ =~= v0 + t0);
        assert(first0[0] == h0);
    }
    v
}

impl Drawing {
    /// Mutable references to every point placed by the commands of this node and its
    /// descendants, in document order. The tree keeps its shape: only the points
    /// change.
    pub fn locations_mut(&mut self) -> (r: Vec<&mut Point>)
        ensures
            r@.len() == forest_points(seq![*old(self)]).len(),
            forall|i: int| 0 <= i < r@.len() ==> *r@[i] == forest_points(seq![*old(self)])[i],
            forest_points(seq![*final(self)]).len() == r@.len(),
            forall|i: int|
                0 <= i < r@.len() ==> forest_points(seq![*final(self)])[i] == *final(r@[i]),
            same_forest_shape(seq![*final(self)], seq![*old(self)]),
        decreases *old(self),
    {
        proof {
            broadcast use vstd::std_specs::vec::axiom_vec_decreases_to_view;

            lemma_single_points(*old(self));
            lemma_forest_cons_facts();
            assert(decreases_to!(*old(self) => old(self).children));
            assert(decreases_to!(old(self).children => old(self).children@));
        }
        let mut v = match &mut self.command {
            Some(c) => c.locations_mut(),
            None => Vec::new(),
        };
        let mut w = forest_locations_mut(self.children.as_mut_slice());
        let ghost v0 = v@;
        let ghost w0 = w@;
        v.append(&mut w);
        proof {
            assert(v@ =~= v0 + w0);
        }
        v
    }
}

} // verus!
