//! Render functions: each one lays an expression out as a tree of sizes and
//! draws it into a rectangle, and combinators build new ones from old ones.

use vstd::prelude::*;
use crate::expr::Expr;
use crate::folds::{
    centered_row_size, centered_row_total, col_size, col_total, lemma_root_values,
    lemma_stack_from_prefix, row_elem_count, row_fill, row_size, row_total, stack_from,
    stack_size, ROW_LIMIT,
};
use crate::graphics::rect::vec2;
use crate::measure::TextMeasure;
use crate::needed_space::{NeededSpace, Space};
use crate::sized_tree::{lemma_sized_fits, sized_seq, values_of, SizedTree, Tree};

pub mod mapping;
pub mod padding;

pub use mapping::{Mapped, Reshape};
pub use padding::{pad, wrap};

verus! {

/// The room left round each element of a group.
pub const PADDING: u32 = 4;

/// How far the wrapped column of a group is moved to the right.
pub const INDENT: u32 = 10;

/// The room between a group's outline and its content.
pub const SEXPR_PADDING: u32 = 0;

/// How much wider a fraction is than the widest of its parts.
pub const FRACT_OVERHANG: u32 = 10;

/// What a wrapper paints round its content.
#[derive(Clone, Copy, Debug, PartialEq, Eq, Structural)]
pub enum Paint {
    /// Nothing: plain padding.
    Nothing,
    /// A rounded border along the outer rectangle.
    Border,
}

/// Which part of an expression an adapter hands on.
#[derive(Clone, Copy, Debug, PartialEq, Eq, Structural)]
pub enum Select {
    /// The second element of a list, if it has one.
    Second,
    /// Nothing, whatever the expression.
    Never,
}

/// One rendering strategy for a single expression.
#[derive(Debug)]
pub enum RenderFn {
    /// The textual form as measured text.
    Symbol,
    /// A list as a leading row of padded elements and an indented column
    /// of those that did not fit the row.
    Sexpr,
    /// What follows a list's head, stacked and widened.
    Fract,
    /// An atom as `Symbol`, a list as `Sexpr`.
    General,
    /// The inner rendering with room on all four sides.
    Wrap { inner: Box<RenderFn>, padding: u32, paint: Paint },
    /// The inner rendering of the selected part; where there is no such
    /// part, the textual form of the whole as an error text.
    TryMap { select: Select, inner: Box<RenderFn> },
}

/// One rendering strategy for a sequence of expressions.
#[derive(Debug)]
pub enum ListRenderFn {
    Row(RenderFn),
    RowCentered(RenderFn),
    Col(RenderFn),
    ColCentered(RenderFn),
}

/// The measuring half of a rendering strategy over `Data`: it gives the
/// data a tree of sizes.
pub trait LayoutFn<Data: View + ?Sized, M: TextMeasure> {
    /// The data that the strategy can render.
    spec fn accepts_data(&self, data: Data::V) -> bool;

    /// The tree of sizes that the strategy gives `data` when texts measure
    /// as `m` says.
    spec fn layout_of(&self, data: Data::V, m: &M) -> SizedTree;

    /// Lays `data` out. `None` says that some size in the tree is beyond
    /// what machine integers hold.
    fn layout_data(&self, data: &Data, m: &M) -> (r: Option<Tree<NeededSpace>>)
        requires
            self.accepts_data(data@),
        ensures
            r is Some <==> self.layout_of(data@, m).fits(),
            r matches Some(tree) ==> tree.sized() == self.layout_of(data@, m),
    ;
}

impl<M: TextMeasure> LayoutFn<Expr, M> for RenderFn {
    open spec fn accepts_data(&self, data: Expr) -> bool {
        self.accepts(data)
    }

    open spec fn layout_of(&self, data: Expr, m: &M) -> SizedTree {
        self.layout_spec(data, m)
    }

    fn layout_data(&self, data: &Expr, m: &M) -> (r: Option<Tree<NeededSpace>>) {
        self.layout(data, m)
    }
}

impl<M: TextMeasure> LayoutFn<[Expr], M> for ListRenderFn {
    open spec fn accepts_data(&self, data: Seq<Expr>) -> bool {
        self.accepts(data)
    }

    open spec fn layout_of(&self, data: Seq<Expr>, m: &M) -> SizedTree {
        self.layout_spec(data, m)
    }

    fn layout_data(&self, data: &[Expr], m: &M) -> (r: Option<Tree<NeededSpace>>) {
        self.layout(data, m)
    }
}

/// The leaf that stands for the textual form of `e`.
pub open spec fn text_leaf<M: TextMeasure>(m: &M, e: Expr) -> SizedTree {
    let size = m.text_size(e.text());
    SizedTree::leaf(Space { x: size.width as nat, above: size.height as nat, below: 0 })
}

/// The inner tree one level down, below its padded size.
pub open spec fn wrap_node(inner: SizedTree, padding: nat) -> SizedTree {
    SizedTree { value: inner.value.expand(padding), children: seq![inner] }
}

/// The size of a flow-wrapped group: the greedy row on top, the rest as an
/// indented column below it.
pub open spec fn sexpr_size(s: Seq<Space>) -> Space {
    let n = row_elem_count(s, ROW_LIMIT as nat) as int;
    row_total(s.take(n)).stack_below(
        stack_from(Space::zero(), s.skip(n)).expand_x(INDENT as nat),
    ).expand(SEXPR_PADDING as nat)
}

pub open spec fn sexpr_node(kids: Seq<SizedTree>) -> SizedTree {
    SizedTree { value: sexpr_size(values_of(kids)), children: kids }
}

pub open spec fn fract_node(kids: Seq<SizedTree>) -> SizedTree {
    SizedTree {
        value: col_total(values_of(kids)).expand_x(FRACT_OVERHANG as nat),
        children: kids,
    }
}

pub open spec fn row_node(kids: Seq<SizedTree>) -> SizedTree {
    SizedTree { value: row_total(values_of(kids)), children: kids }
}

pub open spec fn row_centered_node(kids: Seq<SizedTree>) -> SizedTree {
    SizedTree { value: centered_row_total(values_of(kids)), children: kids }
}

pub open spec fn col_node(kids: Seq<SizedTree>) -> SizedTree {
    SizedTree { value: col_total(values_of(kids)), children: kids }
}

/// The layouts that `f` gives the elements of `data`, in order.
pub open spec fn each_layout<M: TextMeasure>(f: RenderFn, data: Seq<Expr>, m: &M) -> Seq<
    SizedTree,
> {
    Seq::new(data.len(), |i: int| f.layout_spec(data[i], m))
}

/// `General` with `PADDING` round it: how a group renders each element.
pub open spec fn padded_general() -> RenderFn {
    RenderFn::Wrap { inner: Box::new(RenderFn::General), padding: PADDING, paint: Paint::Nothing }
}

impl Select {
    /// The part of `e` that is handed on, if there is one.
    pub open spec fn pick_spec(self, e: Expr) -> Option<Expr> {
        if self is Second && e is List && e->List_0.len() >= 2 {
            Some(e->List_0[1])
        } else {
            None
        }
    }

    pub fn pick<'a>(&self, e: &'a Expr) -> (r: Option<&'a Expr>)
        ensures
            match r {
                Some(part) => self.pick_spec(*e) == Some(*part),
                None => self.pick_spec(*e) is None,
            },
    {
        match self {
            Select::Never => None,
            Select::Second => match e.cdr() {
                Some(tail) => if tail.len() > 0 {
                    Some(&tail[0])
                } else {
                    None
                },
                None => None,
            },
        }
    }
}

impl RenderFn {
    /// How many steps this strategy takes before it looks into an
    /// expression's elements.
    pub open spec fn rank(self) -> nat
        decreases self,
    {
        match self {
            RenderFn::Symbol => 0,
            RenderFn::Sexpr => 0,
            RenderFn::Fract => 0,
            RenderFn::General => 1,
            RenderFn::Wrap { inner, .. } => inner.rank() + 1,
            RenderFn::TryMap { inner, .. } => inner.rank() + 1,
        }
    }

    /// The expressions that this strategy can render: a group needs a list,
    /// a fraction a list with a head.
    pub open spec fn accepts(self, e: Expr) -> bool
        decreases self,
    {
        match self {
            RenderFn::Symbol => true,
            RenderFn::General => true,
            RenderFn::Sexpr => e is List,
            RenderFn::Fract => e is List && e->List_0.len() >= 1,
            RenderFn::Wrap { inner, .. } => inner.accepts(e),
            RenderFn::TryMap { select, inner } => match select.pick_spec(e) {
                Some(part) => inner.accepts(part),
                None => true,
            },
        }
    }

    /// Whether this strategy can render `e`.
    pub fn can_render(&self, e: &Expr) -> (r: bool)
        ensures
            r == self.accepts(*e),
        decreases self,
    {
        match self {
            RenderFn::Symbol => true,
            RenderFn::General => true,
            RenderFn::Sexpr => match e {
                Expr::Atom(_) => false,
                Expr::List(_) => true,
            },
            RenderFn::Fract => match e {
                Expr::Atom(_) => false,
                Expr::List(items) => items.len() >= 1,
            },
            RenderFn::Wrap { inner, .. } => inner.can_render(e),
            RenderFn::TryMap { select, inner } => match select.pick(e) {
                Some(part) => inner.can_render(part),
                None => true,
            },
        }
    }

    /// The tree of sizes that this strategy gives `e` when texts measure as
    /// `m` says.
    pub open spec fn layout_spec<M: TextMeasure>(self, e: Expr, m: &M) -> SizedTree
        decreases e, self.rank(),
    {
        match self {
            RenderFn::Symbol => text_leaf(m, e),
            RenderFn::General => match e {
                Expr::Atom(_) => RenderFn::Symbol.layout_spec(e, m),
                Expr::List(_) => RenderFn::Sexpr.layout_spec(e, m),
            },
            RenderFn::Sexpr => match e {
                Expr::Atom(_) => sexpr_node(Seq::empty()),
                Expr::List(items) => sexpr_node(
                    Seq::new(
                        items.len() as nat,
                        |i: int|
                            if 0 <= i < items.len() {
                                padded_general().layout_spec(items[i], m)
                            } else {
                                SizedTree::leaf(Space::zero())
                            },
                    ),
                ),
            },
            RenderFn::Fract => match e {
                Expr::Atom(_) => fract_node(Seq::empty()),
                Expr::List(items) => fract_node(
                    Seq::new(
                        (items.len() - 1) as nat,
                        |i: int|
                            if 0 <= i < items.len() - 1 {
                                RenderFn::General.layout_spec(items[i + 1], m)
                            } else {
                                SizedTree::leaf(Space::zero())
                            },
                    ),
                ),
            },
            RenderFn::Wrap { inner, padding, .. } => wrap_node(
                inner.layout_spec(e, m),
                padding as nat,
            ),
            RenderFn::TryMap { select, inner } => {
                if select is Second && e is List && e->List_0.len() >= 2 {
                    inner.layout_spec(e->List_0[1], m)
                } else {
                    text_leaf(m, e)
                }
            },
        }
    }

    /// Lays `e` out. `None` says that some size in the tree is beyond what
    /// machine integers hold.
    pub fn layout<M: TextMeasure>(&self, e: &Expr, m: &M) -> (r: Option<Tree<NeededSpace>>)
        requires
            self.accepts(*e),
        ensures
            r is Some <==> self.layout_spec(*e, m).fits(),
            r matches Some(tree) ==> tree.sized() == self.layout_spec(*e, m),
        decreases *e, self.rank(),
    {
        let result = match self {
            RenderFn::Symbol => Some(text_tree(e, m)),
            RenderFn::General => match e {
                Expr::Atom(_) => RenderFn::Symbol.layout(e, m),
                Expr::List(_) => RenderFn::Sexpr.layout(e, m),
            },
            RenderFn::Sexpr => match e {
                // Not reached: a group accepts lists only.
                Expr::Atom(_) => None,
                Expr::List(items) => {
                    let f = pad(RenderFn::General, PADDING);
                    let ghost kids = self.layout_spec(*e, m).children;
                    assert(kids =~= each_layout(f, items@, m));
                    assert forall|i: int| 0 <= i < items@.len() implies f.accepts(
                        #[trigger] items@[i],
                    ) by {
                        assert(RenderFn::General.accepts(items@[i]));
                    }
                    match layout_each(&f, items.as_slice(), m) {
                        Some(layouts) => sexpr_tree(layouts),
                        None => None,
                    }
                },
            },
            RenderFn::Fract => {
                let tail = e.cdr_unwrap();
                let f = RenderFn::General;
                let ghost kids = self.layout_spec(*e, m).children;
                assert(kids =~= each_layout(f, tail@, m));
                match layout_each(&f, tail, m) {
                    Some(layouts) => fract_tree(layouts),
                    None => None,
                }
            },
            RenderFn::Wrap { inner, padding, .. } => match inner.layout(e, m) {
                Some(tree) => wrap_tree(tree, *padding),
                None => {
                    assert(self.layout_spec(*e, m).children[0] == inner.layout_spec(*e, m));
                    None
                },
            },
            RenderFn::TryMap { select, inner } => match select.pick(e) {
                Some(part) => inner.layout(part, m),
                None => Some(text_tree(e, m)),
            },
        };
        proof {
            if result is Some {
                lemma_sized_fits(result->Some_0);
            }
        }
        result
    }
}

impl ListRenderFn {
    /// The strategy that renders each element.
    pub open spec fn elem(self) -> RenderFn {
        match self {
            ListRenderFn::Row(f) => f,
            ListRenderFn::RowCentered(f) => f,
            ListRenderFn::Col(f) => f,
            ListRenderFn::ColCentered(f) => f,
        }
    }

    /// The expression sequences that this strategy can render: those whose
    /// every element the element strategy can render.
    pub open spec fn accepts(self, data: Seq<Expr>) -> bool {
        forall|i: int| 0 <= i < data.len() ==> self.elem().accepts(#[trigger] data[i])
    }

    /// Whether this strategy can render `data`.
    pub fn can_render(&self, data: &[Expr]) -> (r: bool)
        ensures
            r == self.accepts(data@),
    {
        let f = match self {
            ListRenderFn::Row(f) => f,
            ListRenderFn::RowCentered(f) => f,
            ListRenderFn::Col(f) => f,
            ListRenderFn::ColCentered(f) => f,
        };
        let mut i: usize = 0;
        while i < data.len()
            invariant
                i <= data.len(),
                *f == self.elem(),
                forall|j: int| 0 <= j < i ==> f.accepts(#[trigger] data@[j]),
            decreases data.len() - i,
        {
            if !f.can_render(&data[i]) {
                return false;
            }
            i += 1;
        }
        true
    }

    /// The tree of sizes that this strategy gives `data`: the layouts of the
    /// elements as children, below their combined size.
    pub open spec fn layout_spec<M: TextMeasure>(self, data: Seq<Expr>, m: &M) -> SizedTree {
        let kids = each_layout(self.elem(), data, m);
        match self {
            ListRenderFn::Row(_) => row_node(kids),
            ListRenderFn::RowCentered(_) => row_centered_node(kids),
            ListRenderFn::Col(_) => col_node(kids),
            ListRenderFn::ColCentered(_) => col_node(kids),
        }
    }

    /// Lays `data` out. `None` says that some size in the tree is beyond
    /// what machine integers hold.
    pub fn layout<M: TextMeasure>(&self, data: &[Expr], m: &M) -> (r: Option<Tree<NeededSpace>>)
        requires
            self.accepts(data@),
        ensures
            r is Some <==> self.layout_spec(data@, m).fits(),
            r matches Some(tree) ==> tree.sized() == self.layout_spec(data@, m),
    {
        let f = match self {
            ListRenderFn::Row(f) => f,
            ListRenderFn::RowCentered(f) => f,
            ListRenderFn::Col(f) => f,
            ListRenderFn::ColCentered(f) => f,
        };
        let layouts = match layout_each(f, data, m) {
            Some(layouts) => layouts,
            None => {
                proof {
                    let kids = each_layout(*f, data@, m);
                    let i = choose|i: int| 0 <= i < data@.len() && !(#[trigger] kids[i]).fits();
                    assert(self.layout_spec(data@, m).children[i] == kids[i]);
                }
                return None;
            },
        };
        proof {
            lemma_root_values(layouts@);
        }
        let total = match self {
            ListRenderFn::Row(_) => row_size(&layouts),
            ListRenderFn::RowCentered(_) => centered_row_size(&layouts),
            ListRenderFn::Col(_) => col_size(&layouts),
            ListRenderFn::ColCentered(_) => col_size(&layouts),
        };
        match total {
            Some(total) => {
                let r = Tree::new(total, layouts);
                assert(r.sized().children =~= sized_seq(layouts@));
                proof {
                    lemma_sized_fits(r);
                }
                Some(r)
            },
            None => None,
        }
    }
}

/// Lays the elements out side by side on a shared alignment line.
pub fn row(f: RenderFn) -> (r: ListRenderFn)
    ensures
        r == ListRenderFn::Row(f),
{
    ListRenderFn::Row(f)
}

/// Lays the elements out side by side, each centred vertically.
pub fn row_centered(f: RenderFn) -> (r: ListRenderFn)
    ensures
        r == ListRenderFn::RowCentered(f),
{
    ListRenderFn::RowCentered(f)
}

/// Stacks the elements top to bottom, each at the left edge.
pub fn col(f: RenderFn) -> (r: ListRenderFn)
    ensures
        r == ListRenderFn::Col(f),
{
    ListRenderFn::Col(f)
}

/// Stacks the elements top to bottom, each centred horizontally.
pub fn col_centered(f: RenderFn) -> (r: ListRenderFn)
    ensures
        r == ListRenderFn::ColCentered(f),
{
    ListRenderFn::ColCentered(f)
}

/// Renders the part that `select` picks with `f`, and an expression without
/// such a part as an error text.
pub fn try_map(select: Select, f: RenderFn) -> (r: RenderFn)
    ensures
        r == (RenderFn::TryMap { select, inner: Box::new(f) }),
{
    RenderFn::TryMap { select, inner: Box::new(f) }
}

/// The second element of a list in a bordered, padded box.
pub fn boxed() -> (r: RenderFn)
    ensures
        r == (RenderFn::TryMap {
            select: Select::Second,
            inner: Box::new(
                RenderFn::Wrap {
                    inner: Box::new(RenderFn::General),
                    padding: PADDING,
                    paint: Paint::Border,
                },
            ),
        }),
{
    try_map(Select::Second, wrap(RenderFn::General, PADDING, Paint::Border))
}

/// Any expression as an error text.
pub fn error() -> (r: RenderFn)
    ensures
        r == (RenderFn::TryMap { select: Select::Never, inner: Box::new(RenderFn::General) }),
{
    try_map(Select::Never, RenderFn::General)
}

impl Expr {
    /// The strategy that the expression is rendered with: an atom as text,
    /// a list as a group.
    pub fn render_fn(&self) -> (r: RenderFn)
        ensures
            r == (match *self {
                Expr::Atom(_) => RenderFn::Symbol,
                Expr::List(_) => RenderFn::Sexpr,
            }),
            r.accepts(*self),
    {
        match self {
            Expr::Atom(_) => RenderFn::Symbol,
            Expr::List(_) => RenderFn::Sexpr,
        }
    }

    /// The room that the expression needs, as `General` lays it out.
    pub fn needed_space<M: TextMeasure>(&self, m: &M) -> (r: Option<Tree<NeededSpace>>)
        ensures
            r is Some <==> RenderFn::General.layout_spec(*self, m).fits(),
            r matches Some(tree) ==> tree.sized() == RenderFn::General.layout_spec(*self, m),
    {
        RenderFn::General.layout(self, m)
    }
}

/// The leaf for the textual form of `e`, measured by `m`.
pub fn text_tree<M: TextMeasure>(e: &Expr, m: &M) -> (r: Tree<NeededSpace>)
    ensures
        r.sized() == text_leaf(m, *e),
{
    let text = e.to_text();
    let size = m.measure(text.as_str());
    let r = Tree::leaf(NeededSpace::above(vec2(size.width as i64, size.height as i64)));
    assert(r.sized().children =~= Seq::empty());
    r
}

/// Nests `inner` one level down, below its size padded on all four sides.
pub fn wrap_tree(inner: Tree<NeededSpace>, padding: u32) -> (r: Option<Tree<NeededSpace>>)
    ensures
        match r {
            Some(tree) => tree.sized() == wrap_node(inner.sized(), padding as nat),
            None => !wrap_node(inner.sized(), padding as nat).value.fits(),
        },
{
    let v = inner.value;
    let wide: u64 = v.size_x as u64 + 2 * (padding as u64);
    if wide > u32::MAX as u64 || v.size_y_above > u32::MAX - padding || v.size_y_below > u32::MAX
        - padding {
        return None;
    }
    let ghost old_inner = inner;
    let mut children: Vec<Tree<NeededSpace>> = Vec::new();
    children.push(inner);
    let r = Tree::new(v.expand(padding), children);
    assert(r.sized().children =~= seq![old_inner.sized()]);
    Some(r)
}

/// The tree of a flow-wrapped group over the layouts of its elements.
pub fn sexpr_tree(layouts: Vec<Tree<NeededSpace>>) -> (r: Option<Tree<NeededSpace>>)
    ensures
        match r {
            Some(tree) => tree.sized() == sexpr_node(sized_seq(layouts@)),
            None => !sexpr_node(sized_seq(layouts@)).value.fits(),
        },
{
    proof {
        lemma_root_values(layouts@);
    }
    let ghost vals = values_of(sized_seq(layouts@));
    let (row, count) = row_fill(&layouts);
    proof {
        lemma_stack_from_prefix(Space::zero(), vals.skip(count as int), 0);
    }
    let column = match stack_size(NeededSpace::zero(), &layouts, count) {
        Some(c) => c,
        None => {
            return None;
        },
    };
    if column.size_x > u32::MAX - INDENT {
        return None;
    }
    let column = column.expand_x(INDENT);
    let below: u64 = row.size_y_below as u64 + column.size_y_below as u64
        + column.size_y_above as u64;
    if below > u32::MAX as u64 {
        return None;
    }
    let total = row.stack_below(column).expand(SEXPR_PADDING);
    let r = Tree::new(total, layouts);
    assert(r.sized().children =~= sized_seq(layouts@));
    Some(r)
}

/// The tree of a fraction over the layouts of its parts.
pub fn fract_tree(layouts: Vec<Tree<NeededSpace>>) -> (r: Option<Tree<NeededSpace>>)
    ensures
        match r {
            Some(tree) => tree.sized() == fract_node(sized_seq(layouts@)),
            None => !fract_node(sized_seq(layouts@)).value.fits(),
        },
{
    proof {
        lemma_root_values(layouts@);
        let vals = values_of(sized_seq(layouts@));
        if vals.len() > 0 {
            lemma_stack_from_prefix(vals[0], vals.skip(1), 0);
        }
    }
    let column = match col_size(&layouts) {
        Some(c) => c,
        None => {
            return None;
        },
    };
    if column.size_x > u32::MAX - FRACT_OVERHANG {
        return None;
    }
    let r = Tree::new(column.expand_x(FRACT_OVERHANG), layouts);
    assert(r.sized().children =~= sized_seq(layouts@));
    Some(r)
}

/// Lays out every element of `data` with `f`, in order.
pub fn layout_each<M: TextMeasure>(f: &RenderFn, data: &[Expr], m: &M) -> (r: Option<
    Vec<Tree<NeededSpace>>,
>)
    requires
        forall|i: int| 0 <= i < data@.len() ==> f.accepts(#[trigger] data@[i]),
    ensures
        match r {
            Some(layouts) => sized_seq(layouts@) == each_layout(*f, data@, m),
            None => exists|i: int|
                0 <= i < data@.len() && !(#[trigger] each_layout(*f, data@, m)[i]).fits(),
        },
    decreases data@, 0nat,
{
    let mut layouts: Vec<Tree<NeededSpace>> = Vec::new();
    let mut i: usize = 0;
    while i < data.len()
        invariant
            i <= data.len(),
            layouts@.len() == i,
            forall|j: int| 0 <= j < data@.len() ==> f.accepts(#[trigger] data@[j]),
            forall|j: int|
                0 <= j < i ==> (#[trigger] layouts@[j]).sized() == f.layout_spec(data@[j], m),
        decreases data.len() - i,
    {
        match f.layout(&data[i], m) {
            Some(tree) => {
                layouts.push(tree);
            },
            None => {
                assert(!each_layout(*f, data@, m)[i as int].fits());
                return None;
            },
        }
        i += 1;
    }
    assert(sized_seq(layouts@) =~= each_layout(*f, data@, m));
    Some(layouts)
}

} // verus!
