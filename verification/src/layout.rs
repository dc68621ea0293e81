//! Screen layout, neighbour adjacency, and edge-crossing detection.
//!
//! The server holds one [`ScreenLayout`] describing every participating screen (its own and each
//! client's) and how they border one another. The cursor lives at a position within whichever
//! screen is *active*; when it runs off an edge that has a neighbour,
//! [`ScreenLayout::detect_crossing`] reports the target screen and the proportionally mapped entry
//! point on it.

use crate::name_map::NameMap;
use crate::text::same_text;
use vstd::prelude::*;

verus! {

#[derive(Clone, Copy, Debug, PartialEq, Eq, Hash, Structural)]
pub enum Edge {
    Left,
    Right,
    Top,
    Bottom,
}

impl Edge {
    /// The edge on the other side.
    pub open spec fn across(self) -> Edge {
        match self {
            Edge::Left => Edge::Right,
            Edge::Right => Edge::Left,
            Edge::Top => Edge::Bottom,
            Edge::Bottom => Edge::Top,
        }
    }

    /// The edge a cursor arrives on when it crosses *this* edge into a neighbour (crossing the
    /// right edge means entering the neighbour's left).
    pub fn opposite(self) -> (edge: Edge)
        ensures
            edge == self.across(),
    {
        match self {
            Edge::Left => Edge::Right,
            Edge::Right => Edge::Left,
            Edge::Top => Edge::Bottom,
            Edge::Bottom => Edge::Top,
        }
    }
}

#[derive(Clone, Copy, Debug, PartialEq, Eq, Structural)]
pub struct ScreenSize {
    pub w: i32,
    pub h: i32,
}

impl ScreenSize {
    pub fn new(w: i32, h: i32) -> (size: Self)
        ensures
            size.w == w,
            size.h == h,
    {
        Self { w, h }
    }

    /// Whether the screen has an area.
    pub open spec fn positive(self) -> bool {
        self.w > 0 && self.h > 0
    }

    /// Whether the point lies on the screen.
    pub open spec fn covers(self, x: int, y: int) -> bool {
        0 <= x < self.w && 0 <= y < self.h
    }
}

/// A screen name that may be absent, as text.
pub open spec fn name_view(name: Option<String>) -> Option<Seq<char>> {
    match name {
        Some(s) => Some(s@),
        None => None,
    }
}

/// Which screen lies on each side of a given screen (by name).
#[derive(Clone, Debug, PartialEq, Eq)]
pub struct Neighbors {
    pub left: Option<String>,
    pub right: Option<String>,
    pub top: Option<String>,
    pub bottom: Option<String>,
}

/// The mathematical value of [`Neighbors`].
#[verifier::ext_equal]
pub struct Sides {
    pub left: Option<Seq<char>>,
    pub right: Option<Seq<char>>,
    pub top: Option<Seq<char>>,
    pub bottom: Option<Seq<char>>,
}

impl Sides {
    pub open spec fn none() -> Sides {
        Sides { left: None, right: None, top: None, bottom: None }
    }

    /// The screen on a side.
    pub open spec fn at(self, edge: Edge) -> Option<Seq<char>> {
        match edge {
            Edge::Left => self.left,
            Edge::Right => self.right,
            Edge::Top => self.top,
            Edge::Bottom => self.bottom,
        }
    }

    /// The sides with another screen on one of them.
    pub open spec fn with(self, edge: Edge, screen: Option<Seq<char>>) -> Sides {
        match edge {
            Edge::Left => Sides { left: screen, ..self },
            Edge::Right => Sides { right: screen, ..self },
            Edge::Top => Sides { top: screen, ..self },
            Edge::Bottom => Sides { bottom: screen, ..self },
        }
    }
}

impl View for Neighbors {
    type V = Sides;

    open spec fn view(&self) -> Sides {
        Sides {
            left: name_view(self.left),
            right: name_view(self.right),
            top: name_view(self.top),
            bottom: name_view(self.bottom),
        }
    }
}

impl Default for Neighbors {
    fn default() -> (n: Self)
        ensures
            n@ == Sides::none(),
    {
        Neighbors { left: None, right: None, top: None, bottom: None }
    }
}

impl Neighbors {
    pub fn get(&self, edge: Edge) -> (screen: Option<&String>)
        ensures
            match screen {
                Some(s) => self@.at(edge) == Some(s@),
                None => self@.at(edge) is None,
            },
    {
        match edge {
            Edge::Left => self.left.as_ref(),
            Edge::Right => self.right.as_ref(),
            Edge::Top => self.top.as_ref(),
            Edge::Bottom => self.bottom.as_ref(),
        }
    }

    pub fn set(&mut self, edge: Edge, screen: Option<String>)
        ensures
            final(self)@ == old(self)@.with(edge, name_view(screen)),
    {
        match edge {
            Edge::Left => self.left = screen,
            Edge::Right => self.right = screen,
            Edge::Top => self.top = screen,
            Edge::Bottom => self.bottom = screen,
        }
    }
}

#[derive(Clone, Debug, PartialEq, Eq)]
pub struct ScreenNode {
    pub size: ScreenSize,
    pub neighbors: Neighbors,
}

/// The mathematical value of a [`ScreenNode`].
#[verifier::ext_equal]
pub struct NodeView {
    pub size: ScreenSize,
    pub sides: Sides,
}

impl View for ScreenNode {
    type V = NodeView;

    open spec fn view(&self) -> NodeView {
        NodeView { size: self.size, sides: self.neighbors@ }
    }
}

/// The mathematical value of a [`ScreenLayout`]: the screens by name.
pub type LayoutView = Map<Seq<char>, NodeView>;

/// The result of a cursor crossing off one screen onto a neighbour.
#[derive(Clone, Debug, PartialEq, Eq)]
pub struct Crossing {
    /// Name of the screen the cursor enters.
    pub to: String,
    /// Edge of the *source* screen that was crossed.
    pub from_edge: Edge,
    /// Entry coordinates within the target screen.
    pub entry_x: i32,
    pub entry_y: i32,
}

/// The mathematical value of a [`Crossing`].
pub struct CrossingView {
    pub to: Seq<char>,
    pub from_edge: Edge,
    pub entry_x: int,
    pub entry_y: int,
}

impl View for Crossing {
    type V = CrossingView;

    open spec fn view(&self) -> CrossingView {
        CrossingView {
            to: self.to@,
            from_edge: self.from_edge,
            entry_x: self.entry_x as int,
            entry_y: self.entry_y as int,
        }
    }
}

/// The number in `lo..=hi` nearest to `v`, or `lo` if there is none.
pub open spec fn clamped(v: int, lo: int, hi: int) -> int {
    if v < lo || hi < lo {
        lo
    } else if v > hi {
        hi
    } else {
        v
    }
}

/// Half of a number, rounded towards zero.
pub open spec fn half(v: int) -> int {
    if v >= 0 {
        v / 2
    } else {
        -((-v) / 2)
    }
}

/// The position of `v` on a `to`-wide axis that corresponds to its position on a `from`-wide one.
pub open spec fn scaled(v: int, from: int, to: int) -> int {
    if from <= 1 || to <= 0 {
        0
    } else {
        v * to / from
    }
}

/// The edge that a point off the screen has run off. Left and right go before top and bottom.
pub open spec fn exit_edge(size: ScreenSize, x: int, y: int) -> Option<Edge> {
    if x < 0 {
        Some(Edge::Left)
    } else if x >= size.w {
        Some(Edge::Right)
    } else if y < 0 {
        Some(Edge::Top)
    } else if y >= size.h {
        Some(Edge::Bottom)
    } else {
        None
    }
}

/// Where a cursor that runs off `edge` at `(x, y)` enters the neighbour: on the opposite edge, at
/// the proportional position along it.
pub open spec fn entry_point(
    edge: Edge,
    from: ScreenSize,
    to: ScreenSize,
    x: int,
    y: int,
) -> (int, int) {
    let along_y = scaled(clamped(y, 0, from.h - 1), from.h as int, to.h as int);
    let along_x = scaled(clamped(x, 0, from.w - 1), from.w as int, to.w as int);
    match edge {
        Edge::Left => (to.w - 1, along_y),
        Edge::Right => (0, along_y),
        Edge::Top => (along_x, to.h - 1),
        Edge::Bottom => (along_x, 0),
    }
}

/// The crossing that a cursor at `(x, y)` on `active` makes: it has run off an edge, and there is a
/// screen on that side.
pub open spec fn crossing(layout: LayoutView, active: Seq<char>, x: int, y: int) -> Option<
    CrossingView,
> {
    if !layout.contains_key(active) {
        None
    } else {
        let node = layout[active];
        match exit_edge(node.size, x, y) {
            None => None,
            Some(edge) => match node.sides.at(edge) {
                None => None,
                Some(to) => if layout.contains_key(to) {
                    let entry = entry_point(edge, node.size, layout[to].size, x, y);
                    Some(
                        CrossingView { to, from_edge: edge, entry_x: entry.0, entry_y: entry.1 },
                    )
                } else {
                    None
                },
            },
        }
    }
}

/// The layout in which `a`'s `edge` leads to `b` and `b`'s opposite edge back to `a`, as far as the
/// two are there. A screen that one of the two had on that side no longer leads back to it.
pub open spec fn linked(layout: LayoutView, a: Seq<char>, edge: Edge, b: Seq<char>) -> LayoutView {
    let freed = displaced(displaced(layout, a, edge, b), b, edge.across(), a);
    set_side(set_side(freed, a, edge, Some(b)), b, edge.across(), Some(a))
}

/// The layout in which the screen that `screen` has on a side does not lead back to it, unless that
/// screen is `to`.
pub open spec fn displaced(
    layout: LayoutView,
    screen: Seq<char>,
    edge: Edge,
    to: Seq<char>,
) -> LayoutView {
    if layout.contains_key(screen) {
        match layout[screen].sides.at(edge) {
            Some(there) => if there != to && leads_to(layout, there, edge.across(), screen) {
                set_side(layout, there, edge.across(), None)
            } else {
                layout
            },
            None => layout,
        }
    } else {
        layout
    }
}

/// Whether `screen` is there and has `to` on a side.
pub open spec fn leads_to(
    layout: LayoutView,
    screen: Seq<char>,
    edge: Edge,
    to: Seq<char>,
) -> bool {
    layout.contains_key(screen) && layout[screen].sides.at(edge) == Some(to)
}

/// The layout with another screen, or none, on a side of `screen`, if that is there.
pub open spec fn set_side(
    layout: LayoutView,
    screen: Seq<char>,
    edge: Edge,
    to: Option<Seq<char>>,
) -> LayoutView {
    if layout.contains_key(screen) {
        layout.insert(
            screen,
            NodeView { size: layout[screen].size, sides: layout[screen].sides.with(edge, to) },
        )
    } else {
        layout
    }
}

/// Whether the sizes that a crossing takes one off allow that without overflow.
pub open spec fn can_cross(layout: LayoutView, active: Seq<char>, x: int, y: int) -> bool {
    crossing(layout, active, x, y) matches Some(c) ==> {
        let from = layout[active].size;
        let to = layout[c.to].size;
        match c.from_edge {
            Edge::Left => from.h > i32::MIN && to.w > i32::MIN,
            Edge::Right => from.h > i32::MIN,
            Edge::Top => from.w > i32::MIN && to.h > i32::MIN,
            Edge::Bottom => from.w > i32::MIN,
        }
    }
}

/// Whether one can be taken off a screen's size without overflow.
pub open spec fn can_clamp(layout: LayoutView, screen: Seq<char>) -> bool {
    layout.contains_key(screen) ==> layout[screen].size.w > i32::MIN && layout[screen].size.h
        > i32::MIN
}

/// Whether every screen has an area.
pub open spec fn has_areas(layout: LayoutView) -> bool {
    forall|screen: Seq<char>| #[trigger]
        layout.contains_key(screen) ==> layout[screen].size.positive()
}

#[derive(Clone, Debug, PartialEq, Eq)]
pub struct ScreenLayout {
    pub nodes: NameMap<ScreenNode>,
}

impl View for ScreenLayout {
    type V = LayoutView;

    open spec fn view(&self) -> LayoutView {
        self.nodes@.map_values(|n: ScreenNode| n@)
    }
}

impl Default for ScreenLayout {
    fn default() -> (l: Self)
        ensures
            l@ == Map::<Seq<char>, NodeView>::empty(),
    {
        let l = ScreenLayout { nodes: NameMap::new() };
        assert(l@ =~= Map::<Seq<char>, NodeView>::empty());
        l
    }
}

impl ScreenLayout {
    pub fn new() -> (l: Self)
        ensures
            l@ == Map::<Seq<char>, NodeView>::empty(),
    {
        Self::default()
    }

    /// Puts a screen without neighbours into the layout, in place of any of that name.
    pub fn add_screen(&mut self, name: &str, size: ScreenSize) -> (l: &mut Self)
        ensures
            l@ == old(self)@.insert(name@, NodeView { size, sides: Sides::none() }),
            *final(self) == *final(l),
    {
        self.nodes.insert(name.to_string(), ScreenNode { size, neighbors: Neighbors::default() });
        assert(self@ =~= old(self)@.insert(name@, NodeView { size, sides: Sides::none() }));
        self
    }

    /// Link `a`'s `edge` to `b`, and reciprocally `b`'s opposite edge to `a`. Neighbours that this
    /// displaces lose their way back to `a` or `b`. This keeps the adjacency graph symmetric, so
    /// that the cursor can always travel back the way it came.
    pub fn link(&mut self, a: &str, edge: Edge, b: &str) -> (l: &mut Self)
        ensures
            l@ == linked(old(self)@, a@, edge, b@),
            *final(self) == *final(l),
    {
        self.displace(a, edge, b);
        self.displace(b, edge.opposite(), a);
        self.point(a, edge, Some(b.to_string()));
        self.point(b, edge.opposite(), Some(a.to_string()));
        self
    }

    fn displace(&mut self, screen: &str, edge: Edge, to: &str)
        ensures
            final(self)@ == displaced(old(self)@, screen@, edge, to@),
    {
        let there = match self.neighbor(screen, edge) {
            Some(there) => there.clone(),
            None => {
                return;
            },
        };
        if same_text(there.as_str(), to) {
            return;
        }
        let leads_back = match self.neighbor(there.as_str(), edge.opposite()) {
            Some(back) => same_text(back.as_str(), screen),
            None => false,
        };
        if leads_back {
            self.point(there.as_str(), edge.opposite(), None);
        }
    }

    fn neighbor(&self, screen: &str, edge: Edge) -> (name: Option<&String>)
        ensures
            match name {
                Some(n) => leads_to(self@, screen@, edge, n@),
                None => self@.contains_key(screen@) ==> self@[screen@].sides.at(edge) is None,
            },
    {
        match self.nodes.get(screen) {
            Some(node) => {
                assert(self@.contains_key(screen@) && self@[screen@] == node@);
                node.neighbors.get(edge)
            },
            None => None,
        }
    }

    fn point(&mut self, screen: &str, edge: Edge, to: Option<String>)
        ensures
            final(self)@ == set_side(old(self)@, screen@, edge, name_view(to)),
    {
        match self.nodes.get_mut(screen) {
            Some(node) => {
                node.neighbors.set(edge, to);
            },
            None => {},
        }
        assert(self@ =~= set_side(old(self)@, screen@, edge, name_view(to)));
    }

    pub fn size_of(&self, screen: &str) -> (size: Option<ScreenSize>)
        ensures
            size == if self@.contains_key(screen@) {
                Some(self@[screen@].size)
            } else {
                None
            },
    {
        match self.nodes.get(screen) {
            Some(node) => Some(node.size),
            None => None,
        }
    }

    pub fn contains(&self, screen: &str) -> (found: bool)
        ensures
            found == self@.contains_key(screen@),
    {
        self.nodes.contains_key(screen)
    }

    /// The edge that a cursor at `(x, y)` on `active` runs off and the screen on that side, with
    /// the sizes of the two screens.
    fn exit(&self, active: &str, x: i32, y: i32) -> (r: Option<
        (Edge, ScreenSize, &String, ScreenSize),
    >)
        ensures
            match crossing(self@, active@, x as int, y as int) {
                Some(c) => r matches Some((edge, from, to, target)) && {
                    &&& edge == c.from_edge
                    &&& from == self@[active@].size
                    &&& to@ == c.to
                    &&& target == self@[c.to].size
                },
                None => r is None,
            },
    {
        let node = match self.nodes.get(active) {
            Some(node) => node,
            None => {
                return None;
            },
        };
        assert(self@[active@] == node@);
        let edge = if x < 0 {
            Edge::Left
        } else if x >= node.size.w {
            Edge::Right
        } else if y < 0 {
            Edge::Top
        } else if y >= node.size.h {
            Edge::Bottom
        } else {
            return None;
        };
        match node.neighbors.get(edge) {
            Some(to) => match self.nodes.get(to.as_str()) {
                Some(target) => {
                    assert(self@.contains_key(to@) && self@[to@] == target@);
                    Some((edge, node.size, to, target.size))
                },
                None => None,
            },
            None => None,
        }
    }

    /// Whether [`ScreenLayout::detect_crossing`] can take a position.
    pub fn can_detect_crossing(&self, active: &str, x: i32, y: i32) -> (ok: bool)
        ensures
            ok == can_cross(self@, active@, x as int, y as int),
    {
        match self.exit(active, x, y) {
            Some((edge, from, _, to)) => match edge {
                Edge::Left => from.h > i32::MIN && to.w > i32::MIN,
                Edge::Right => from.h > i32::MIN,
                Edge::Top => from.w > i32::MIN && to.h > i32::MIN,
                Edge::Bottom => from.w > i32::MIN,
            },
            None => true,
        }
    }

    /// If `(x, y)` (in `active`'s coordinate space) has run off an edge with a neighbour, return
    /// where the cursor lands on that neighbour. Horizontal crossings take priority over vertical
    /// ones. Returns `None` if the cursor is still on-screen or ran off an edge with no neighbour.
    pub fn detect_crossing(&self, active: &str, x: i32, y: i32) -> (r: Option<Crossing>)
        requires
            can_cross(self@, active@, x as int, y as int),
        ensures
            match crossing(self@, active@, x as int, y as int) {
                Some(c) => r matches Some(k) && k@ == c,
                None => r is None,
            },
    {
        match self.exit(active, x, y) {
            Some((edge, from, to, target)) => {
                let (entry_x, entry_y): (i32, i32) = match edge {
                    // Crossing left or right keeps the vertical position (scaled); the cursor lands
                    // on the neighbour's opposite vertical edge.
                    Edge::Left => (
                        target.w - 1,
                        scale(clamp(y, 0, from.h - 1), from.h, target.h),
                    ),
                    Edge::Right => (0, scale(clamp(y, 0, from.h - 1), from.h, target.h)),
                    // Crossing top or bottom keeps the horizontal position (scaled).
                    Edge::Top => (
                        scale(clamp(x, 0, from.w - 1), from.w, target.w),
                        target.h - 1,
                    ),
                    Edge::Bottom => (scale(clamp(x, 0, from.w - 1), from.w, target.w), 0),
                };
                Some(Crossing { to: to.clone(), from_edge: edge, entry_x, entry_y })
            },
            None => None,
        }
    }

    /// Whether [`ScreenLayout::clamp_to`] can take a screen.
    pub fn can_clamp_to(&self, screen: &str) -> (ok: bool)
        ensures
            ok == can_clamp(self@, screen@),
    {
        match self.size_of(screen) {
            Some(size) => size.w > i32::MIN && size.h > i32::MIN,
            None => true,
        }
    }

    /// Clamp a position to a screen's bounds (used when the cursor pushes against an edge that has
    /// no neighbour).
    pub fn clamp_to(&self, screen: &str, x: i32, y: i32) -> (p: (i32, i32))
        requires
            can_clamp(self@, screen@),
        ensures
            (p.0 as int, p.1 as int) == clamped_to(self@, screen@, x as int, y as int),
    {
        match self.nodes.get(screen) {
            Some(n) => {
                assert(self@.contains_key(screen@) && self@[screen@] == n@);
                (clamp(x, 0, n.size.w - 1), clamp(y, 0, n.size.h - 1))
            },
            None => (x, y),
        }
    }
}

/// The point of a screen nearest to `(x, y)`.
pub open spec fn clamped_to(layout: LayoutView, screen: Seq<char>, x: int, y: int) -> (int, int) {
    if layout.contains_key(screen) {
        let size = layout[screen].size;
        (clamped(x, 0, size.w - 1), clamped(y, 0, size.h - 1))
    } else {
        (x, y)
    }
}

fn clamp(v: i32, lo: i32, hi: i32) -> (c: i32)
    ensures
        c == clamped(v as int, lo as int, hi as int),
{
    if v < lo || hi < lo {
        lo
    } else if v > hi {
        hi
    } else {
        v
    }
}

/// Map `v` from a `from`-wide axis onto a `to`-wide axis, proportionally.
fn scale(v: i32, from: i32, to: i32) -> (mapped: i32)
    requires
        0 <= v,
        v < from || from <= 1,
    ensures
        mapped == scaled(v as int, from as int, to as int),
        to > 0 ==> 0 <= mapped < to,
{
    if from <= 1 || to <= 0 {
        return 0;
    }
    proof {
        lemma_scaled_bounds(v as int, from as int, to as int);
        assert(0 <= v * to <= i32::MAX * i32::MAX) by (nonlinear_arith)
            requires
                0 <= v <= i32::MAX,
                0 < to <= i32::MAX,
        ;
    }
    let mapped: i64 = (v as i64 * to as i64) / from as i64;
    clamp(mapped as i32, 0, to - 1)
}

proof fn lemma_scaled_bounds(v: int, from: int, to: int)
    requires
        0 <= v < from,
        0 < to,
    ensures
        0 <= v * to / from < to,
{
    assert(0 <= v * to) by (nonlinear_arith)
        requires
            0 <= v,
            0 < to,
    ;
    assert(v * to < from * to) by (nonlinear_arith)
        requires
            v < from,
            0 < to,
    ;
    vstd::arithmetic::div_mod::lemma_div_pos_is_pos(v * to, from);
    vstd::arithmetic::div_mod::lemma_multiply_divide_lt(v * to, from, to);
}

/// Whether every way from a screen to a neighbour that is there leads back.
pub open spec fn symmetric(layout: LayoutView) -> bool {
    forall|a: Seq<char>, edge: Edge|
        #![trigger layout[a].sides.at(edge)]
        layout.contains_key(a) ==> match layout[a].sides.at(edge) {
            Some(b) => layout.contains_key(b) ==> layout[b].sides.at(edge.across()) == Some(a),
            None => true,
        }
}

/// Whether every neighbour of a screen is there.
pub open spec fn complete(layout: LayoutView) -> bool {
    forall|a: Seq<char>, edge: Edge|
        #![trigger layout[a].sides.at(edge)]
        layout.contains_key(a) ==> match layout[a].sides.at(edge) {
            Some(b) => layout.contains_key(b),
            None => true,
        }
}

/// Linking two screens makes each the neighbour of the other. Of the other sides, only those change
/// that led back to one of the two from a screen that is displaced: they lead nowhere.
pub proof fn lemma_link_is_mutual(layout: LayoutView, a: Seq<char>, edge: Edge, b: Seq<char>)
    requires
        layout.contains_key(a),
        layout.contains_key(b),
    ensures
        linked(layout, a, edge, b).dom() == layout.dom(),
        linked(layout, a, edge, b)[a].sides.at(edge) == Some(b),
        linked(layout, a, edge, b)[b].sides.at(edge.across()) == Some(a),
        forall|s: Seq<char>, e: Edge|
            #![trigger linked(layout, a, edge, b)[s].sides.at(e)]
            layout.contains_key(s) && (s, e) != (a, edge) && (s, e) != (b, edge.across()) ==> {
                let lost = {
                    ||| e == edge.across() && layout[s].sides.at(e) == Some(a)
                        && layout[a].sides.at(edge) == Some(s)
                    ||| e == edge && layout[s].sides.at(e) == Some(b)
                        && layout[b].sides.at(edge.across()) == Some(s)
                };
                linked(layout, a, edge, b)[s].sides.at(e) == if lost {
                    None
                } else {
                    layout[s].sides.at(e)
                }
            },
        forall|s: Seq<char>|
            layout.contains_key(s) ==> #[trigger] linked(layout, a, edge, b)[s].size
                == layout[s].size,
{
    assert(linked(layout, a, edge, b).dom() =~= layout.dom());
}

/// Linking changes nothing but sides, and of two screens of which one is not there, it only gives
/// the other its side.
pub proof fn lemma_link_of_absent_screens(
    layout: LayoutView,
    a: Seq<char>,
    edge: Edge,
    b: Seq<char>,
    s: Seq<char>,
    e: Edge,
)
    ensures
        linked(layout, a, edge, b).dom() == layout.dom(),
        !layout.contains_key(a) && !layout.contains_key(b) ==> linked(layout, a, edge, b) == layout,
        layout.contains_key(a) ==> linked(layout, a, edge, b)[a].sides.at(edge) == Some(b),
        layout.contains_key(b) ==> linked(layout, a, edge, b)[b].sides.at(edge.across()) == Some(a),
        layout.contains_key(s) ==> linked(layout, a, edge, b)[s].size == layout[s].size,
        layout.contains_key(s) && (s, e) != (a, edge) && (s, e) != (b, edge.across())
            && layout[s].sides.at(e) != Some(a) && layout[s].sides.at(e) != Some(b)
            ==> linked(layout, a, edge, b)[s].sides.at(e) == layout[s].sides.at(e),
{
    assert(linked(layout, a, edge, b).dom() =~= layout.dom());
}

/// Linking keeps the adjacency graph symmetric, whatever was on the two sides before. If every
/// neighbour was there and the two screens are, every neighbour still is.
pub proof fn lemma_link_keeps_symmetry(layout: LayoutView, a: Seq<char>, edge: Edge, b: Seq<char>)
    requires
        symmetric(layout),
    ensures
        symmetric(linked(layout, a, edge, b)),
        complete(layout) && layout.contains_key(a) && layout.contains_key(b) ==> complete(
            linked(layout, a, edge, b),
        ),
{
    let after = linked(layout, a, edge, b);
    assert(after.dom() =~= layout.dom());
    assert forall|s: Seq<char>, e: Edge|
        #![trigger after[s].sides.at(e)]
        after.contains_key(s) implies match after[s].sides.at(e) {
        Some(t) => after.contains_key(t) ==> after[t].sides.at(e.across()) == Some(s),
        None => true,
    } by {
        assert(layout.contains_key(s));
        if let Some(t) = after[s].sides.at(e) {
            if layout[s].sides.at(e) == Some(t) && layout.contains_key(t) {
                assert(layout[t].sides.at(e.across()) == Some(s));
            }
        }
    }
    if complete(layout) && layout.contains_key(a) && layout.contains_key(b) {
        assert forall|s: Seq<char>, e: Edge|
            #![trigger after[s].sides.at(e)]
            after.contains_key(s) implies match after[s].sides.at(e) {
            Some(t) => after.contains_key(t),
            None => true,
        } by {
            assert(layout[s].sides.at(e) is Some ==> layout.contains_key(
                layout[s].sides.at(e)->0,
            ));
        }
    }
}

/// A step in building a layout.
pub enum LayoutStep {
    Add { name: Seq<char>, size: ScreenSize },
    Link { a: Seq<char>, edge: Edge, b: Seq<char> },
}

/// The layout after some steps.
pub open spec fn built(steps: Seq<LayoutStep>) -> LayoutView
    decreases steps.len(),
{
    if steps.len() == 0 {
        Map::empty()
    } else {
        let before = built(steps.drop_last());
        match steps.last() {
            LayoutStep::Add { name, size } => before.insert(
                name,
                NodeView { size, sides: Sides::none() },
            ),
            LayoutStep::Link { a, edge, b } => linked(before, a, edge, b),
        }
    }
}

/// Whether every screen is added once, and only screens that are there are linked.
pub open spec fn orderly(steps: Seq<LayoutStep>) -> bool
    decreases steps.len(),
{
    steps.len() > 0 ==> {
        let before = built(steps.drop_last());
        &&& orderly(steps.drop_last())
        &&& match steps.last() {
            LayoutStep::Add { name, .. } => !before.contains_key(name),
            LayoutStep::Link { a, b, .. } => before.contains_key(a) && before.contains_key(b),
        }
    }
}

/// A layout that is built in order is symmetric, however often its screens are linked anew, and
/// every neighbour is there: the cursor can always travel back.
pub proof fn lemma_built_layout_is_symmetric(steps: Seq<LayoutStep>)
    requires
        orderly(steps),
    ensures
        symmetric(built(steps)),
        complete(built(steps)),
    decreases steps.len(),
{
    if steps.len() > 0 {
        let before = built(steps.drop_last());
        let after = built(steps);
        lemma_built_layout_is_symmetric(steps.drop_last());
        match steps.last() {
            LayoutStep::Add { name, .. } => {
                assert forall|s: Seq<char>, e: Edge|
                    #![trigger after[s].sides.at(e)]
                    after.contains_key(s) implies match after[s].sides.at(e) {
                    Some(t) => after.contains_key(t) && after[t].sides.at(e.across()) == Some(s),
                    None => true,
                } by {
                    if s != name {
                        assert(after[s].sides.at(e) == before[s].sides.at(e));
                    }
                }
            },
            LayoutStep::Link { a, edge, b } => {
                lemma_link_keeps_symmetry(before, a, edge, b);
            },
        }
    }
}

/// A crossing enters the target on the target.
pub proof fn lemma_entry_is_on_target(layout: LayoutView, active: Seq<char>, x: int, y: int)
    requires
        crossing(layout, active, x, y) is Some,
        layout[crossing(layout, active, x, y)->0.to].size.positive(),
    ensures
        ({
            let c = crossing(layout, active, x, y)->0;
            &&& layout.contains_key(c.to)
            &&& layout[c.to].size.covers(c.entry_x, c.entry_y)
            &&& on_edge(layout[c.to].size, c.from_edge.across(), c.entry_x, c.entry_y)
        }),
{
    let c = crossing(layout, active, x, y)->0;
    let from = layout[active].size;
    let to = layout[c.to].size;
    if from.h > 1 {
        lemma_scaled_bounds(clamped(y, 0, from.h - 1), from.h as int, to.h as int);
    }
    if from.w > 1 {
        lemma_scaled_bounds(clamped(x, 0, from.w - 1), from.w as int, to.w as int);
    }
}

/// Whether a point lies on the outermost row or column of an edge.
pub open spec fn on_edge(size: ScreenSize, edge: Edge, x: int, y: int) -> bool {
    match edge {
        Edge::Left => x == 0,
        Edge::Right => x == size.w - 1,
        Edge::Top => y == 0,
        Edge::Bottom => y == size.h - 1,
    }
}

/// The point one step beyond an edge from a point on it.
pub open spec fn step_off(size: ScreenSize, edge: Edge, x: int, y: int) -> (int, int) {
    match edge {
        Edge::Left => (-1, y),
        Edge::Right => (size.w as int, y),
        Edge::Top => (x, -1),
        Edge::Bottom => (x, size.h as int),
    }
}

/// The cursor can always travel back the way it came: one step back from where a crossing arrives
/// leads to the screen it came from, onto the edge that it left.
pub proof fn lemma_way_back(layout: LayoutView, active: Seq<char>, x: int, y: int)
    requires
        symmetric(layout),
        crossing(layout, active, x, y) is Some,
        layout[active].size.positive(),
        layout[crossing(layout, active, x, y)->0.to].size.positive(),
    ensures
        ({
            let there = crossing(layout, active, x, y)->0;
            let off = step_off(
                layout[there.to].size,
                there.from_edge.across(),
                there.entry_x,
                there.entry_y,
            );
            crossing(layout, there.to, off.0, off.1) matches Some(back) && {
                &&& back.to == active
                &&& back.from_edge == there.from_edge.across()
                &&& layout[active].size.covers(back.entry_x, back.entry_y)
                &&& on_edge(layout[active].size, there.from_edge, back.entry_x, back.entry_y)
            }
        }),
{
    let there = crossing(layout, active, x, y)->0;
    let size = layout[there.to].size;
    let off = step_off(size, there.from_edge.across(), there.entry_x, there.entry_y);
    lemma_entry_is_on_target(layout, active, x, y);
    assert(layout[active].sides.at(there.from_edge) == Some(there.to));
    assert(layout[there.to].sides.at(there.from_edge.across()) == Some(active));
    assert(exit_edge(size, off.0, off.1) == Some(there.from_edge.across()));
    lemma_entry_is_on_target(layout, there.to, off.0, off.1);
}

/// Crossing an edge twice leads back to it, and an edge never lies across from itself. The ends of
/// the horizontal axis lie across from each other, and so do those of the vertical one.
pub proof fn lemma_edges_lie_across(edge: Edge)
    ensures
        edge.across() != edge,
        edge.across().across() == edge,
        (edge == Edge::Left || edge == Edge::Right) <==> (edge.across() == Edge::Left
            || edge.across() == Edge::Right),
{
}

/// A side is found again under the edge that it was set under, in the field of that name, and
/// setting one leaves the three others.
pub proof fn lemma_sides_are_apart(
    sides: Sides,
    edge: Edge,
    other: Edge,
    screen: Option<Seq<char>>,
)
    ensures
        sides.with(edge, screen).at(edge) == screen,
        other != edge ==> sides.with(edge, screen).at(other) == sides.at(other),
        (Sides { left: screen, ..sides }).at(Edge::Left) == screen,
        (Sides { right: screen, ..sides }).at(Edge::Right) == screen,
        (Sides { top: screen, ..sides }).at(Edge::Top) == screen,
        (Sides { bottom: screen, ..sides }).at(Edge::Bottom) == screen,
        Sides::none().at(edge) is None,
{
}

/// The cursor crosses exactly where it has run off the screen and a screen is there on that side,
/// and it goes to that screen. Left and right go before top and bottom.
pub proof fn lemma_crossing_goes_to_the_neighbour(
    layout: LayoutView,
    active: Seq<char>,
    x: int,
    y: int,
)
    requires
        layout.contains_key(active),
    ensures
        ({
            let c = crossing(layout, active, x, y);
            let w = layout[active].size.w;
            let h = layout[active].size.h;
            let sides = layout[active].sides;
            &&& 0 <= x < w && 0 <= y < h ==> c is None
            &&& x < 0 ==> match sides.left {
                Some(to) if layout.contains_key(to) => c matches Some(k) && k.to == to
                    && k.from_edge == Edge::Left,
                _ => c is None,
            }
            &&& x >= 0 && x >= w ==> match sides.right {
                Some(to) if layout.contains_key(to) => c matches Some(k) && k.to == to
                    && k.from_edge == Edge::Right,
                _ => c is None,
            }
            &&& 0 <= x < w && y < 0 ==> match sides.top {
                Some(to) if layout.contains_key(to) => c matches Some(k) && k.to == to
                    && k.from_edge == Edge::Top,
                _ => c is None,
            }
            &&& 0 <= x < w && y >= 0 && y >= h ==> match sides.bottom {
                Some(to) if layout.contains_key(to) => c matches Some(k) && k.to == to
                    && k.from_edge == Edge::Bottom,
                _ => c is None,
            }
        }),
{
}

/// Nothing is crossed from a screen that is not there.
pub proof fn lemma_no_crossing_from_nowhere(
    layout: LayoutView,
    active: Seq<char>,
    x: int,
    y: int,
)
    requires
        !layout.contains_key(active),
    ensures
        crossing(layout, active, x, y) is None,
{
}

/// Whether `at` is the place on an axis of `to` steps that corresponds to `v` on one of `from`
/// steps: the step `at` holds the point that lies as far along the one as `v` does along the
/// other. Short of the axis is its beginning, and beyond it is its last step. An axis of one step
/// or less only has the beginning.
pub open spec fn corresponds(at: int, to: int, v: int, from: int) -> bool {
    let along = if v < 0 {
        0
    } else if v >= from {
        from - 1
    } else {
        v
    };
    if from > 1 && to > 0 {
        at * from <= along * to && along * to < (at + 1) * from
    } else {
        at == 0
    }
}

proof fn lemma_scaled_corresponds(v: int, from: int, to: int)
    ensures
        corresponds(scaled(clamped(v, 0, from - 1), from, to), to, v, from),
{
    if from > 1 && to > 0 {
        let along = clamped(v, 0, from - 1);
        let at = scaled(along, from, to);
        vstd::arithmetic::div_mod::lemma_fundamental_div_mod(along * to, from);
        let rest = (along * to) % from;
        assert(at * from <= along * to && along * to < (at + 1) * from) by (nonlinear_arith)
            requires
                along * to == from * at + rest,
                0 <= rest < from,
        ;
    }
}

/// A crossing puts the cursor on the edge across from the one that it left, at the proportional
/// position along it: for every edge, and whatever the sizes of the two screens.
pub proof fn lemma_crossing_keeps_the_proportion(
    layout: LayoutView,
    active: Seq<char>,
    x: int,
    y: int,
)
    requires
        crossing(layout, active, x, y) is Some,
    ensures
        ({
            let c = crossing(layout, active, x, y)->0;
            let from = layout[active].size;
            let to = layout[c.to].size;
            match c.from_edge {
                Edge::Left => c.entry_x == to.w - 1 && corresponds(
                    c.entry_y,
                    to.h as int,
                    y,
                    from.h as int,
                ),
                Edge::Right => c.entry_x == 0 && corresponds(
                    c.entry_y,
                    to.h as int,
                    y,
                    from.h as int,
                ),
                Edge::Top => c.entry_y == to.h - 1 && corresponds(
                    c.entry_x,
                    to.w as int,
                    x,
                    from.w as int,
                ),
                Edge::Bottom => c.entry_y == 0 && corresponds(
                    c.entry_x,
                    to.w as int,
                    x,
                    from.w as int,
                ),
            }
        }),
        // The same, written out for a position within the edge.
        ({
            let c = crossing(layout, active, x, y)->0;
            let from = layout[active].size;
            let to = layout[c.to].size;
            match c.from_edge {
                Edge::Left | Edge::Right => 0 <= y < from.h && from.h > 1 && to.h > 0
                    ==> c.entry_y * from.h <= y * to.h < (c.entry_y + 1) * from.h,
                Edge::Top | Edge::Bottom => 0 <= x < from.w && from.w > 1 && to.w > 0
                    ==> c.entry_x * from.w <= x * to.w < (c.entry_x + 1) * from.w,
            }
        }),
{
    let c = crossing(layout, active, x, y)->0;
    let from = layout[active].size;
    let to = layout[c.to].size;
    lemma_scaled_corresponds(x, from.w as int, to.w as int);
    lemma_scaled_corresponds(y, from.h as int, to.h as int);
}

/// Two screens of one size are crossed without any shift: the cursor keeps its place along the
/// edge.
pub proof fn lemma_equal_screens_keep_the_place(
    layout: LayoutView,
    active: Seq<char>,
    x: int,
    y: int,
)
    requires
        crossing(layout, active, x, y) is Some,
        layout[crossing(layout, active, x, y)->0.to].size == layout[active].size,
        layout[active].size.w > 1,
        layout[active].size.h > 1,
    ensures
        ({
            let c = crossing(layout, active, x, y)->0;
            let size = layout[active].size;
            &&& (x < 0 || x >= size.w) && 0 <= y < size.h ==> c.entry_y == y
            &&& 0 <= x < size.w ==> c.entry_x == x
        }),
{
    let c = crossing(layout, active, x, y)->0;
    let size = layout[active].size;
    lemma_crossing_keeps_the_proportion(layout, active, x, y);
    if 0 <= x < size.w {
        let w = size.w as int;
        let at = c.entry_x;
        assert(at == x) by (nonlinear_arith)
            requires
                at * w <= x * w,
                x * w < (at + 1) * w,
                w > 1,
        ;
    } else if 0 <= y < size.h {
        let h = size.h as int;
        let at = c.entry_y;
        assert(at == y) by (nonlinear_arith)
            requires
                at * h <= y * h,
                y * h < (at + 1) * h,
                h > 1,
        ;
    }
}

/// Clamping gives the nearest point of the screen: a point on it stays, and no column or row of it
/// is nearer than the one that is given. A screen without an area only has the origin, and a screen
/// that is not there leaves the point alone.
pub proof fn lemma_clamping_is_nearest(
    layout: LayoutView,
    screen: Seq<char>,
    x: int,
    y: int,
    column: int,
    row: int,
)
    ensures
        ({
            let (cx, cy) = clamped_to(layout, screen, x, y);
            let w = layout[screen].size.w;
            let h = layout[screen].size.h;
            if layout.contains_key(screen) {
                &&& if w > 0 {
                    &&& 0 <= cx < w
                    &&& 0 <= x < w ==> cx == x
                    &&& 0 <= column < w ==> (cx <= x || cx <= column) && (cx >= x || cx >= column)
                } else {
                    cx == 0
                }
                &&& if h > 0 {
                    &&& 0 <= cy < h
                    &&& 0 <= y < h ==> cy == y
                    &&& 0 <= row < h ==> (cy <= y || cy <= row) && (cy >= y || cy >= row)
                } else {
                    cy == 0
                }
            } else {
                cx == x && cy == y
            }
        }),
{
}

/// Half of a number is the middle of what it counts, rounded towards zero.
pub proof fn lemma_half_is_the_middle(v: int)
    ensures
        v >= 0 ==> 2 * half(v) <= v <= 2 * half(v) + 1,
        v < 0 ==> 2 * half(v) - 1 <= v <= 2 * half(v),
{
}

/// Every position can be tested and clamped where no size is the least number there is.
pub proof fn lemma_usual_sizes_are_taken(layout: LayoutView, screen: Seq<char>, x: int, y: int)
    requires
        forall|s: Seq<char>| #[trigger]
            layout.contains_key(s) ==> layout[s].size.w > i32::MIN && layout[s].size.h > i32::MIN,
    ensures
        can_cross(layout, screen, x, y),
        can_clamp(layout, screen),
{
}

} // verus!
