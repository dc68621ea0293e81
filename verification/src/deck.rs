//! The control deck: from what the operator sets up on the grid to configurations, and from status
//! updates to what the deck displays.

use crate::config::{ClientConfig, ServerConfig};
use crate::controller::{ServerStatus, StatusView};
use crate::layout;
use crate::layout::{Edge, LayoutView, NodeView, ScreenLayout, ScreenSize, Sides};
use crate::session::{ClientStatus, ClientStatusView};
use crate::text::same_text;
use vstd::prelude::*;

verus! {

/// A screen on the grid.
#[derive(Clone, Debug, PartialEq, Eq)]
pub struct ScreenDto {
    pub name: String,
    pub w: i32,
    pub h: i32,
    pub col: i32,
    pub row: i32,
}

/// The mathematical value of a [`ScreenDto`].
pub struct Cell {
    pub name: Seq<char>,
    pub w: i32,
    pub h: i32,
    pub col: i32,
    pub row: i32,
}

impl View for ScreenDto {
    type V = Cell;

    open spec fn view(&self) -> Cell {
        Cell { name: self.name@, w: self.w, h: self.h, col: self.col, row: self.row }
    }
}

/// The cells of some screens.
pub open spec fn cells(screens: Seq<ScreenDto>) -> Seq<Cell> {
    screens.map_values(|s: ScreenDto| s@)
}

/// A length of at least one.
pub open spec fn at_least_one(n: i32) -> i32 {
    if n < 1 {
        1
    } else {
        n
    }
}

impl Cell {
    /// The size of the screen. It has an area.
    pub open spec fn size(self) -> ScreenSize {
        ScreenSize { w: at_least_one(self.w), h: at_least_one(self.h) }
    }

    /// Whether `other` is in the next cell to the right.
    pub open spec fn left_of(self, other: Cell) -> bool {
        self.name != other.name && self.row == other.row && other.col == self.col + 1
    }

    /// Whether `other` is in the next cell below.
    pub open spec fn above(self, other: Cell) -> bool {
        self.name != other.name && self.col == other.col && other.row == self.row + 1
    }
}

/// The layout of the first `n` screens, without neighbours.
pub open spec fn placed(grid: Seq<Cell>, n: nat) -> LayoutView
    decreases n,
{
    if n == 0 {
        Map::empty()
    } else {
        let c = grid[n - 1];
        placed(grid, (n - 1) as nat).insert(
            c.name,
            NodeView { size: c.size(), sides: Sides::none() },
        )
    }
}

/// The layout once `a` has been linked to `b` as their cells ask for.
pub open spec fn joined(screens: LayoutView, a: Cell, b: Cell) -> LayoutView {
    let across = if a.left_of(b) {
        layout::linked(screens, a.name, Edge::Right, b.name)
    } else {
        screens
    };
    if a.above(b) {
        layout::linked(across, a.name, Edge::Bottom, b.name)
    } else {
        across
    }
}

/// The layout once a screen has been linked to the first `m` of the grid.
pub open spec fn joined_row(screens: LayoutView, grid: Seq<Cell>, a: Cell, m: nat) -> LayoutView
    decreases m,
{
    if m == 0 {
        screens
    } else {
        joined(joined_row(screens, grid, a, (m - 1) as nat), a, grid[m - 1])
    }
}

/// The layout once the first `n` screens have been linked to all of the grid.
pub open spec fn joined_rows(grid: Seq<Cell>, n: nat) -> LayoutView
    decreases n,
{
    if n == 0 {
        placed(grid, grid.len())
    } else {
        joined_row(joined_rows(grid, (n - 1) as nat), grid, grid[n - 1], grid.len())
    }
}

/// The layout of a grid: screens in adjacent cells become left and right or top and bottom
/// neighbours.
pub open spec fn grid_layout(grid: Seq<Cell>) -> LayoutView {
    joined_rows(grid, grid.len())
}

/// Build a [`ScreenLayout`] from grid cell positions.
pub fn build_layout(screens: &[ScreenDto]) -> (l: ScreenLayout)
    ensures
        l@ == grid_layout(cells(screens@)),
        layout::has_areas(l@),
{
    let ghost grid = cells(screens@);
    let mut l = ScreenLayout::new();
    let mut i: usize = 0;
    while i < screens.len()
        invariant
            i <= screens@.len(),
            grid == cells(screens@),
            l@ == placed(grid, i as nat),
            layout::has_areas(l@),
        decreases screens@.len() - i,
    {
        let s = &screens[i];
        l.add_screen(s.name.as_str(), ScreenSize::new(max_one(s.w), max_one(s.h)));
        i = i + 1;
    }
    let mut i: usize = 0;
    while i < screens.len()
        invariant
            i <= screens@.len(),
            grid == cells(screens@),
            l@ == joined_rows(grid, i as nat),
            layout::has_areas(l@),
        decreases screens@.len() - i,
    {
        let a = &screens[i];
        let ghost start = l@;
        let mut j: usize = 0;
        while j < screens.len()
            invariant
                i < screens@.len(),
                j <= screens@.len(),
                grid == cells(screens@),
                a@ == grid[i as int],
                l@ == joined_row(start, grid, a@, j as nat),
                layout::has_areas(l@),
            decreases screens@.len() - j,
        {
            let b = &screens[j];
            if !same_text(a.name.as_str(), b.name.as_str()) {
                if a.row == b.row && b.col as i64 == a.col as i64 + 1 {
                    l.link(a.name.as_str(), Edge::Right, b.name.as_str());
                }
                if a.col == b.col && b.row as i64 == a.row as i64 + 1 {
                    l.link(a.name.as_str(), Edge::Bottom, b.name.as_str());
                }
            }
            j = j + 1;
        }
        i = i + 1;
    }
    l
}

fn max_one(n: i32) -> (m: i32)
    ensures
        m == at_least_one(n),
{
    if n < 1 {
        1
    } else {
        n
    }
}

/// What the operator set up for a server.
#[derive(Clone, Debug)]
pub struct ServerSetup {
    pub bind: String,
    pub port: u16,
    pub local_screen: String,
    pub screens: Vec<ScreenDto>,
    pub tls: bool,
}

/// What the operator set up for a client.
#[derive(Clone, Debug)]
pub struct ClientSetup {
    pub server_addr: String,
    pub name: String,
    pub width: i32,
    pub height: i32,
    pub tls: bool,
}

/// Whether a server is configured as it was set up.
pub open spec fn configures_server(setup: ServerSetup, r: Result<ServerConfig, String>) -> bool {
    match r {
        Ok(c) => {
            &&& c.layout@ == grid_layout(cells(setup.screens@))
            &&& layout::has_areas(c.layout@)
            &&& c.layout@.contains_key(setup.local_screen@)
            &&& c.bind == setup.bind
            &&& c.port == setup.port
            &&& c.local_screen == setup.local_screen
            &&& c.tls == setup.tls
        },
        Err(name) => {
            &&& !grid_layout(cells(setup.screens@)).contains_key(setup.local_screen@)
            &&& name == setup.local_screen
        },
    }
}

/// Whether a client is configured as it was set up. Its screen has an area.
pub open spec fn configures_client(setup: ClientSetup, c: ClientConfig) -> bool {
    &&& c.server_addr == setup.server_addr
    &&& c.name == setup.name
    &&& c.screen == (ScreenSize { w: at_least_one(setup.width), h: at_least_one(setup.height) })
    &&& c.tls == setup.tls
}

/// The configuration of a server. There is none if this machine's screen is not on the grid; its
/// name is given back.
pub fn server_config(setup: ServerSetup) -> (r: Result<ServerConfig, String>)
    ensures
        configures_server(setup, r),
{
    let layout = build_layout(setup.screens.as_slice());
    if !layout.contains(setup.local_screen.as_str()) {
        return Err(setup.local_screen);
    }
    Ok(
        ServerConfig {
            bind: setup.bind,
            port: setup.port,
            local_screen: setup.local_screen,
            layout,
            tls: setup.tls,
        },
    )
}

/// The configuration of a client. Its screen has an area.
pub fn client_config(setup: ClientSetup) -> (c: ClientConfig)
    ensures
        configures_client(setup, c),
{
    ClientConfig {
        server_addr: setup.server_addr,
        name: setup.name,
        screen: ScreenSize::new(max_one(setup.width), max_one(setup.height)),
        tls: setup.tls,
    }
}

/// A status as the deck displays it.
#[derive(Clone, Debug, PartialEq, Eq)]
pub struct StatusEvent {
    pub kind: String,
    pub detail: String,
}

/// How the deck displays a status of the server: its kind and its detail.
pub open spec fn server_display(status: StatusView) -> (Seq<char>, Seq<char>) {
    match status {
        StatusView::Listening(addr) => ("listening"@, addr),
        StatusView::ClientConnected(name) => ("client_connected"@, name),
        StatusView::ClientDisconnected(name) => ("client_disconnected"@, name),
        StatusView::ActiveScreen(name) => ("active_screen"@, name),
        StatusView::Grab(on) => (
            "grab"@,
            if on {
                "true"@
            } else {
                "false"@
            },
        ),
    }
}

/// How the deck displays a status of the client: its kind and its detail.
pub open spec fn client_display(status: ClientStatusView) -> (Seq<char>, Seq<char>) {
    match status {
        ClientStatusView::Connecting => ("connecting"@, ""@),
        ClientStatusView::Connected => ("connected"@, ""@),
        ClientStatusView::Entered => ("entered"@, ""@),
        ClientStatusView::Left => ("left"@, ""@),
        ClientStatusView::Disconnected(reason) => ("disconnected"@, reason),
    }
}

fn event(kind: &str, detail: String) -> (ev: StatusEvent)
    ensures
        ev.kind@ == kind@,
        ev.detail == detail,
{
    StatusEvent { kind: kind.to_string(), detail }
}

/// How the deck displays a status of the server.
pub fn server_status_event(status: ServerStatus) -> (ev: StatusEvent)
    ensures
        (ev.kind@, ev.detail@) == server_display(status@),
{
    match status {
        ServerStatus::Listening(addr) => event("listening", addr),
        ServerStatus::ClientConnected(name) => event("client_connected", name),
        ServerStatus::ClientDisconnected(name) => event("client_disconnected", name),
        ServerStatus::ActiveScreen(name) => event("active_screen", name),
        ServerStatus::Grab(on) => event(
            "grab",
            if on {
                "true".to_string()
            } else {
                "false".to_string()
            },
        ),
    }
}

/// How the deck displays a status of the client.
pub fn client_status_event(status: ClientStatus) -> (ev: StatusEvent)
    ensures
        (ev.kind@, ev.detail@) == client_display(status@),
{
    match status {
        ClientStatus::Connecting => event("connecting", "".to_string()),
        ClientStatus::Connected => event("connected", "".to_string()),
        ClientStatus::Entered => event("entered", "".to_string()),
        ClientStatus::Left => event("left", "".to_string()),
        ClientStatus::Disconnected(reason) => event("disconnected", reason),
    }
}

/// Whether no two screens of a grid share a name or a cell.
pub open spec fn proper_grid(grid: Seq<Cell>) -> bool {
    forall|i: int, j: int|
        0 <= i < grid.len() && 0 <= j < grid.len() && i != j ==> (#[trigger] grid[i]).name != (
        #[trigger] grid[j]).name && (grid[i].col != grid[j].col || grid[i].row != grid[j].row)
}

/// Whether `b` is in the cell next to `a` on a side.
pub open spec fn beside(a: Cell, b: Cell, edge: Edge) -> bool {
    match edge {
        Edge::Left => b.left_of(a),
        Edge::Right => a.left_of(b),
        Edge::Top => b.above(a),
        Edge::Bottom => a.above(b),
    }
}

/// Whether the pair that puts the `m`-th screen on a side of the `k`-th is among those before the
/// pair `(i, j)`.
spec fn linked_before(i: int, j: int, k: int, m: int, edge: Edge) -> bool {
    let (p, q) = if edge == Edge::Right || edge == Edge::Bottom {
        (k, m)
    } else {
        (m, k)
    };
    p < i || (p == i && q < j)
}

/// Whether a side of the `k`-th screen is as the pairs before `(i, j)` ask for.
spec fn side_as_linked(
    screens: LayoutView,
    grid: Seq<Cell>,
    i: int,
    j: int,
    k: int,
    edge: Edge,
) -> bool {
    let there = screens[grid[k].name].sides.at(edge);
    &&& forall|m: int|
        0 <= m < grid.len() && beside(grid[k], #[trigger] grid[m], edge) && linked_before(
            i,
            j,
            k,
            m,
            edge,
        ) ==> there == Some(grid[m].name)
    &&& (forall|m: int|
        0 <= m < grid.len() ==> !(beside(grid[k], #[trigger] grid[m], edge) && linked_before(
            i,
            j,
            k,
            m,
            edge,
        ))) ==> there is None
}

/// Whether a layout is as the pairs before `(i, j)` ask for.
spec fn as_linked(screens: LayoutView, grid: Seq<Cell>, i: int, j: int) -> bool {
    &&& forall|name: Seq<char>| #[trigger]
        screens.contains_key(name) ==> exists|k: int|
            0 <= k < grid.len() && (#[trigger] grid[k]).name == name
    &&& forall|k: int|
        0 <= k < grid.len() ==> screens.contains_key((#[trigger] grid[k]).name)
            && screens[grid[k].name].size == grid[k].size()
    &&& forall|k: int, edge: Edge|
        0 <= k < grid.len() ==> #[trigger] side_as_linked(screens, grid, i, j, k, edge)
}

proof fn lemma_beside_is_unique(grid: Seq<Cell>, k: int, m: int, n: int, edge: Edge)
    requires
        proper_grid(grid),
        0 <= k < grid.len(),
        0 <= m < grid.len(),
        0 <= n < grid.len(),
        beside(grid[k], grid[m], edge),
        beside(grid[k], grid[n], edge),
    ensures
        m == n,
{
}

proof fn lemma_link_extends(
    screens: LayoutView,
    grid: Seq<Cell>,
    i: int,
    j: int,
    k: int,
    edge: Edge,
)
    requires
        proper_grid(grid),
        0 <= i < grid.len(),
        0 <= j < grid.len(),
        0 <= k < grid.len(),
        as_linked(screens, grid, i, j),
    ensures
        side_as_linked(joined(screens, grid[i], grid[j]), grid, i, j + 1, k, edge),
{
    let a = grid[i];
    let b = grid[j];
    let after = joined(screens, a, b);
    assert(side_as_linked(screens, grid, i, j, k, edge));
    assert(screens.contains_key(a.name) && screens.contains_key(b.name));
    // The pair that is new, seen from the `k`-th screen.
    let fresh = if edge == Edge::Right || edge == Edge::Bottom {
        k == i
    } else {
        k == j
    };
    let other = if edge == Edge::Right || edge == Edge::Bottom {
        j
    } else {
        i
    };
    let there = after[grid[k].name].sides.at(edge);
    if fresh && beside(grid[k], grid[other], edge) {
        assert(there == Some(grid[other].name));
        assert forall|m: int|
            0 <= m < grid.len() && beside(grid[k], #[trigger] grid[m], edge) && linked_before(
                i,
                j + 1,
                k,
                m,
                edge,
            ) implies there == Some(grid[m].name) by {
            lemma_beside_is_unique(grid, k, m, other, edge);
        }
        assert(linked_before(i, j + 1, k, other, edge));
    } else {
        assert(there == screens[grid[k].name].sides.at(edge));
        assert forall|m: int|
            0 <= m < grid.len() && beside(grid[k], #[trigger] grid[m], edge) implies linked_before(
            i,
            j + 1,
            k,
            m,
            edge,
        ) == linked_before(i, j, k, m, edge) by {}
    }
}

proof fn lemma_joined_extends(screens: LayoutView, grid: Seq<Cell>, i: int, j: int)
    requires
        proper_grid(grid),
        0 <= i < grid.len(),
        0 <= j < grid.len(),
        as_linked(screens, grid, i, j),
    ensures
        as_linked(joined(screens, grid[i], grid[j]), grid, i, j + 1),
{
    let after = joined(screens, grid[i], grid[j]);
    assert forall|k: int, edge: Edge| 0 <= k < grid.len() implies #[trigger] side_as_linked(
        after,
        grid,
        i,
        j + 1,
        k,
        edge,
    ) by {
        lemma_link_extends(screens, grid, i, j, k, edge);
    }
    assert(screens.contains_key(grid[i].name) && screens.contains_key(grid[j].name));
    assert(after.dom() =~= screens.dom());
}

proof fn lemma_joined_row(screens: LayoutView, grid: Seq<Cell>, i: int, m: nat)
    requires
        proper_grid(grid),
        0 <= i < grid.len(),
        m <= grid.len(),
        as_linked(screens, grid, i, 0),
    ensures
        as_linked(joined_row(screens, grid, grid[i], m), grid, i, m as int),
    decreases m,
{
    if m > 0 {
        lemma_joined_row(screens, grid, i, (m - 1) as nat);
        lemma_joined_extends(
            joined_row(screens, grid, grid[i], (m - 1) as nat),
            grid,
            i,
            m - 1,
        );
    }
}

proof fn lemma_row_done(screens: LayoutView, grid: Seq<Cell>, i: int)
    requires
        0 <= i < grid.len(),
        as_linked(screens, grid, i, grid.len() as int),
    ensures
        as_linked(screens, grid, i + 1, 0),
{
    assert forall|k: int, edge: Edge| 0 <= k < grid.len() implies #[trigger] side_as_linked(
        screens,
        grid,
        i + 1,
        0,
        k,
        edge,
    ) by {
        assert(side_as_linked(screens, grid, i, grid.len() as int, k, edge));
        assert forall|m: int| 0 <= m < grid.len() implies linked_before(i + 1, 0, k, m, edge)
            == linked_before(i, grid.len() as int, k, m, edge) by {}
    }
}

proof fn lemma_placed(grid: Seq<Cell>, n: nat)
    requires
        proper_grid(grid),
        n <= grid.len(),
    ensures
        forall|name: Seq<char>| #[trigger]
            placed(grid, n).contains_key(name) ==> exists|k: int|
                0 <= k < n && (#[trigger] grid[k]).name == name,
        forall|k: int|
            0 <= k < n ==> placed(grid, n).contains_key((#[trigger] grid[k]).name) && placed(
                grid,
                n,
            )[grid[k].name] == (NodeView { size: grid[k].size(), sides: Sides::none() }),
    decreases n,
{
    if n > 0 {
        lemma_placed(grid, (n - 1) as nat);
        assert(placed(grid, n).contains_key(grid[n - 1].name));
        assert forall|name: Seq<char>| #[trigger] placed(grid, n).contains_key(
            name,
        ) implies exists|k: int| 0 <= k < n && (#[trigger] grid[k]).name == name by {
            if name == grid[n - 1].name {
                assert(grid[n - 1].name == name);
            } else {
                assert(placed(grid, (n - 1) as nat).contains_key(name));
            }
        }
    }
}

proof fn lemma_joined_rows(grid: Seq<Cell>, n: nat)
    requires
        proper_grid(grid),
        n <= grid.len(),
    ensures
        as_linked(joined_rows(grid, n), grid, n as int, 0),
    decreases n,
{
    if n == 0 {
        lemma_placed(grid, grid.len());
    } else {
        let before = joined_rows(grid, (n - 1) as nat);
        lemma_joined_rows(grid, (n - 1) as nat);
        lemma_joined_row(before, grid, n - 1, grid.len());
        lemma_row_done(joined_row(before, grid, grid[n - 1], grid.len()), grid, n - 1);
    }
}

/// On a grid without clashes, every screen has its own size, and on each side exactly the screen
/// that is in the next cell there.
pub proof fn lemma_grid_cells_become_neighbours(grid: Seq<Cell>, k: int, edge: Edge)
    requires
        proper_grid(grid),
        0 <= k < grid.len(),
    ensures
        grid_layout(grid).contains_key(grid[k].name),
        grid_layout(grid)[grid[k].name].size == grid[k].size(),
        forall|m: int|
            0 <= m < grid.len() && beside(grid[k], #[trigger] grid[m], edge) ==> grid_layout(
                grid,
            )[grid[k].name].sides.at(edge) == Some(grid[m].name),
        (forall|m: int| 0 <= m < grid.len() ==> !beside(grid[k], #[trigger] grid[m], edge))
            ==> grid_layout(grid)[grid[k].name].sides.at(edge) is None,
{
    lemma_joined_rows(grid, grid.len());
    assert(side_as_linked(grid_layout(grid), grid, grid.len() as int, 0, k, edge));
    assert forall|m: int| 0 <= m < grid.len() implies linked_before(
        grid.len() as int,
        0,
        k,
        m,
        edge,
    ) by {}
}

proof fn lemma_placed_is_symmetric(grid: Seq<Cell>, n: nat)
    ensures
        layout::symmetric(placed(grid, n)),
        forall|name: Seq<char>| #[trigger]
            placed(grid, n).contains_key(name) ==> placed(grid, n)[name].sides == Sides::none(),
    decreases n,
{
    if n > 0 {
        lemma_placed_is_symmetric(grid, (n - 1) as nat);
    }
}

proof fn lemma_joined_row_is_symmetric(screens: LayoutView, grid: Seq<Cell>, a: Cell, m: nat)
    requires
        layout::symmetric(screens),
    ensures
        layout::symmetric(joined_row(screens, grid, a, m)),
    decreases m,
{
    if m > 0 {
        let b = grid[m - 1];
        let before = joined_row(screens, grid, a, (m - 1) as nat);
        lemma_joined_row_is_symmetric(screens, grid, a, (m - 1) as nat);
        layout::lemma_link_keeps_symmetry(before, a.name, Edge::Right, b.name);
        let across = if a.left_of(b) {
            layout::linked(before, a.name, Edge::Right, b.name)
        } else {
            before
        };
        layout::lemma_link_keeps_symmetry(across, a.name, Edge::Bottom, b.name);
    }
}

proof fn lemma_joined_rows_are_symmetric(grid: Seq<Cell>, n: nat)
    ensures
        layout::symmetric(joined_rows(grid, n)),
    decreases n,
{
    if n == 0 {
        lemma_placed_is_symmetric(grid, grid.len());
    } else {
        let before = joined_rows(grid, (n - 1) as nat);
        lemma_joined_rows_are_symmetric(grid, (n - 1) as nat);
        lemma_joined_row_is_symmetric(before, grid, grid[n - 1], grid.len());
    }
}

/// The layout of every grid is symmetric, even where screens clash: the cursor can always travel
/// back.
pub proof fn lemma_grid_layout_is_symmetric(grid: Seq<Cell>)
    ensures
        layout::symmetric(grid_layout(grid)),
{
    lemma_joined_rows_are_symmetric(grid, grid.len());
}

/// On a grid without clashes, screens in cells next to each other are neighbours on the sides that
/// face each other: the column to the right is on the right, and the row below is below. A side
/// that faces an empty cell has none. A screen has the size that was set up, and at least one in
/// each direction.
pub proof fn lemma_grid_is_seen_from_above(grid: Seq<Cell>, a: int, b: int)
    requires
        proper_grid(grid),
        0 <= a < grid.len(),
        0 <= b < grid.len(),
    ensures
        ({
            let screens = grid_layout(grid);
            let node = screens[grid[a].name];
            let (x, y) = (grid[b].col - grid[a].col, grid[b].row - grid[a].row);
            let free = |dx: int, dy: int|
                forall|m: int|
                    0 <= m < grid.len() ==> (#[trigger] grid[m]).col != grid[a].col + dx
                        || grid[m].row != grid[a].row + dy;
            &&& screens.contains_key(grid[a].name)
            &&& node.size.w as int == if grid[a].w >= 1 {
                grid[a].w as int
            } else {
                1
            }
            &&& node.size.h as int == if grid[a].h >= 1 {
                grid[a].h as int
            } else {
                1
            }
            &&& x == 1 && y == 0 ==> node.sides.right == Some(grid[b].name)
            &&& x == -1 && y == 0 ==> node.sides.left == Some(grid[b].name)
            &&& x == 0 && y == 1 ==> node.sides.bottom == Some(grid[b].name)
            &&& x == 0 && y == -1 ==> node.sides.top == Some(grid[b].name)
            &&& free(1, 0) ==> node.sides.right is None
            &&& free(-1, 0) ==> node.sides.left is None
            &&& free(0, 1) ==> node.sides.bottom is None
            &&& free(0, -1) ==> node.sides.top is None
        }),
{
    lemma_grid_cells_become_neighbours(grid, a, Edge::Left);
    lemma_grid_cells_become_neighbours(grid, a, Edge::Right);
    lemma_grid_cells_become_neighbours(grid, a, Edge::Top);
    lemma_grid_cells_become_neighbours(grid, a, Edge::Bottom);
    if a != b {
        assert(grid[a].name != grid[b].name);
    }
}

proof fn lemma_joining_keeps_the_screens(screens: LayoutView, grid: Seq<Cell>, a: Cell, m: nat)
    ensures
        joined_row(screens, grid, a, m).dom() == screens.dom(),
    decreases m,
{
    if m > 0 {
        let b = grid[m - 1];
        let before = joined_row(screens, grid, a, (m - 1) as nat);
        lemma_joining_keeps_the_screens(screens, grid, a, (m - 1) as nat);
        layout::lemma_link_of_absent_screens(
            before,
            a.name,
            Edge::Right,
            b.name,
            a.name,
            Edge::Left,
        );
        let across = if a.left_of(b) {
            layout::linked(before, a.name, Edge::Right, b.name)
        } else {
            before
        };
        layout::lemma_link_of_absent_screens(
            across,
            a.name,
            Edge::Bottom,
            b.name,
            a.name,
            Edge::Left,
        );
    }
}

proof fn lemma_rows_keep_the_screens(grid: Seq<Cell>, n: nat)
    ensures
        joined_rows(grid, n).dom() == placed(grid, grid.len()).dom(),
    decreases n,
{
    if n > 0 {
        let before = joined_rows(grid, (n - 1) as nat);
        lemma_rows_keep_the_screens(grid, (n - 1) as nat);
        lemma_joining_keeps_the_screens(before, grid, grid[n - 1], grid.len());
    }
}

proof fn lemma_placed_names(grid: Seq<Cell>, n: nat, name: Seq<char>)
    requires
        n <= grid.len(),
    ensures
        placed(grid, n).contains_key(name) <==> exists|k: int|
            0 <= k < n && (#[trigger] grid[k]).name == name,
    decreases n,
{
    if n > 0 {
        lemma_placed_names(grid, (n - 1) as nat, name);
        if grid[n - 1].name == name {
            assert(placed(grid, n).contains_key(name));
        }
    }
}

/// The screens of the layout are those of the grid, clashes or not.
pub proof fn lemma_every_screen_is_placed(grid: Seq<Cell>, name: Seq<char>)
    ensures
        grid_layout(grid).contains_key(name) <==> exists|k: int|
            0 <= k < grid.len() && (#[trigger] grid[k]).name == name,
{
    lemma_rows_keep_the_screens(grid, grid.len());
    lemma_placed_names(grid, grid.len(), name);
    assert(grid_layout(grid).contains_key(name) == grid_layout(grid).dom().contains(name));
}

/// The deck displays a status under a name of its own, with the address, the screen, the state of
/// the grab or the reason that it is about.
pub proof fn lemma_statuses_are_displayed(detail: Seq<char>)
    ensures
        server_display(StatusView::Listening(detail)) == ("listening"@, detail),
        server_display(StatusView::ClientConnected(detail)) == ("client_connected"@, detail),
        server_display(StatusView::ClientDisconnected(detail)) == ("client_disconnected"@, detail),
        server_display(StatusView::ActiveScreen(detail)) == ("active_screen"@, detail),
        server_display(StatusView::Grab(true)) == ("grab"@, "true"@),
        server_display(StatusView::Grab(false)) == ("grab"@, "false"@),
        client_display(ClientStatusView::Connecting).0 == "connecting"@,
        client_display(ClientStatusView::Connected).0 == "connected"@,
        client_display(ClientStatusView::Entered).0 == "entered"@,
        client_display(ClientStatusView::Left).0 == "left"@,
        client_display(ClientStatusView::Connecting).1.len() == 0,
        client_display(ClientStatusView::Connected).1.len() == 0,
        client_display(ClientStatusView::Entered).1.len() == 0,
        client_display(ClientStatusView::Left).1.len() == 0,
        client_display(ClientStatusView::Disconnected(detail)) == ("disconnected"@, detail),
{
    reveal_strlit("");
}

proof fn lemma_placed_size(grid: Seq<Cell>, n: nat, k: int)
    requires
        0 <= k < n <= grid.len(),
        forall|j: int| k < j < n ==> (#[trigger] grid[j]).name != grid[k].name,
    ensures
        placed(grid, n).contains_key(grid[k].name),
        placed(grid, n)[grid[k].name].size == grid[k].size(),
    decreases n,
{
    if k < n - 1 {
        assert(grid[n - 1].name != grid[k].name);
        lemma_placed_size(grid, (n - 1) as nat, k);
    }
}

proof fn lemma_joining_keeps_the_size(
    screens: LayoutView,
    grid: Seq<Cell>,
    a: Cell,
    m: nat,
    name: Seq<char>,
)
    requires
        screens.contains_key(name),
    ensures
        joined_row(screens, grid, a, m).contains_key(name),
        joined_row(screens, grid, a, m)[name].size == screens[name].size,
    decreases m,
{
    if m > 0 {
        let b = grid[m - 1];
        let before = joined_row(screens, grid, a, (m - 1) as nat);
        lemma_joining_keeps_the_size(screens, grid, a, (m - 1) as nat, name);
        layout::lemma_link_of_absent_screens(before, a.name, Edge::Right, b.name, name, Edge::Left);
        let across = if a.left_of(b) {
            layout::linked(before, a.name, Edge::Right, b.name)
        } else {
            before
        };
        assert(across.dom().contains(name));
        layout::lemma_link_of_absent_screens(
            across,
            a.name,
            Edge::Bottom,
            b.name,
            name,
            Edge::Left,
        );
        assert(joined(before, a, b).dom().contains(name));
    }
}

proof fn lemma_rows_keep_the_size(grid: Seq<Cell>, n: nat, name: Seq<char>)
    requires
        placed(grid, grid.len()).contains_key(name),
    ensures
        joined_rows(grid, n).contains_key(name),
        joined_rows(grid, n)[name].size == placed(grid, grid.len())[name].size,
    decreases n,
{
    if n > 0 {
        let before = joined_rows(grid, (n - 1) as nat);
        lemma_rows_keep_the_size(grid, (n - 1) as nat, name);
        lemma_joining_keeps_the_size(before, grid, grid[n - 1], grid.len(), name);
    }
}

/// A screen has the size that was set up for it, at least one in each direction. Of several of one
/// name the last counts.
pub proof fn lemma_screens_have_their_size(grid: Seq<Cell>, k: int)
    requires
        0 <= k < grid.len(),
        forall|j: int| k < j < grid.len() ==> (#[trigger] grid[j]).name != grid[k].name,
    ensures
        ({
            let size = grid_layout(grid)[grid[k].name].size;
            &&& grid_layout(grid).contains_key(grid[k].name)
            &&& grid[k].w >= 1 ==> size.w == grid[k].w
            &&& grid[k].w < 1 ==> size.w == 1
            &&& grid[k].h >= 1 ==> size.h == grid[k].h
            &&& grid[k].h < 1 ==> size.h == 1
        }),
{
    lemma_placed_size(grid, grid.len(), k);
    lemma_rows_keep_the_size(grid, grid.len(), grid[k].name);
}

/// A server is configured as it was set up, if its own screen is on the grid: with that address,
/// that port, that screen, that TLS setting, and the screens of the grid. If its screen is not, its
/// name is given back.
pub proof fn lemma_server_is_configured_as_set_up(
    setup: ServerSetup,
    r: Result<ServerConfig, String>,
)
    requires
        configures_server(setup, r),
    ensures
        r is Ok <==> exists|k: int|
            0 <= k < setup.screens@.len() && (#[trigger] setup.screens@[k]).name@
                == setup.local_screen@,
        r matches Ok(c) ==> c.bind@ == setup.bind@ && c.port == setup.port && c.local_screen@
            == setup.local_screen@ && c.tls == setup.tls && c.layout@ == grid_layout(
            cells(setup.screens@),
        ),
        r matches Err(name) ==> name@ == setup.local_screen@,
{
    let grid = cells(setup.screens@);
    let name = setup.local_screen@;
    lemma_every_screen_is_placed(grid, name);
    if grid_layout(grid).contains_key(name) {
        let k = choose|k: int| 0 <= k < grid.len() && (#[trigger] grid[k]).name == name;
        assert(grid[k].name == setup.screens@[k].name@);
    }
    if exists|k: int|
        0 <= k < setup.screens@.len() && (#[trigger] setup.screens@[k]).name@ == name {
        let k = choose|k: int|
            0 <= k < setup.screens@.len() && (#[trigger] setup.screens@[k]).name@ == name;
        assert(grid[k].name == name);
    }
}

/// A client is configured as it was set up: with that server, that name, that TLS setting, and a
/// screen of that size, at least one in each direction.
pub proof fn lemma_client_is_configured_as_set_up(setup: ClientSetup, c: ClientConfig)
    requires
        configures_client(setup, c),
    ensures
        c.server_addr@ == setup.server_addr@,
        c.name@ == setup.name@,
        c.tls == setup.tls,
        setup.width >= 1 ==> c.screen.w == setup.width,
        setup.width < 1 ==> c.screen.w == 1,
        setup.height >= 1 ==> c.screen.h == setup.height,
        setup.height < 1 ==> c.screen.h == 1,
{
}

/// Whether two screens are there and lead to each other across an edge of the first.
pub open spec fn facing(screens: LayoutView, a: Seq<char>, edge: Edge, b: Seq<char>) -> bool {
    &&& layout::leads_to(screens, a, edge, b)
    &&& layout::leads_to(screens, b, edge.across(), a)
}

proof fn lemma_link_keeps_others(
    screens: LayoutView,
    a: Seq<char>,
    across: Edge,
    b: Seq<char>,
    c: Seq<char>,
    edge: Edge,
    d: Seq<char>,
)
    requires
        across == Edge::Right || across == Edge::Bottom,
        edge == Edge::Right || edge == Edge::Bottom,
        facing(screens, c, edge, d),
        across == edge ==> (a == c && b == d) || (a != c && b != d),
        a != b,
        c != d,
    ensures
        facing(layout::linked(screens, a, across, b), c, edge, d),
{
}

proof fn lemma_join_keeps_others(
    screens: LayoutView,
    a: Cell,
    b: Cell,
    c: Cell,
    edge: Edge,
    d: Cell,
)
    requires
        edge == Edge::Right || edge == Edge::Bottom,
        facing(screens, c.name, edge, d.name),
        beside(a, b, edge) ==> a.name != c.name && b.name != d.name,
        c.name != d.name,
    ensures
        facing(joined(screens, a, b), c.name, edge, d.name),
{
    let across = if a.left_of(b) {
        lemma_link_keeps_others(screens, a.name, Edge::Right, b.name, c.name, edge, d.name);
        layout::linked(screens, a.name, Edge::Right, b.name)
    } else {
        screens
    };
    if a.above(b) {
        lemma_link_keeps_others(across, a.name, Edge::Bottom, b.name, c.name, edge, d.name);
    }
}

/// Whether no two screens of a grid share a name.
pub open spec fn named_apart(grid: Seq<Cell>) -> bool {
    forall|i: int, j: int|
        0 <= i < grid.len() && 0 <= j < grid.len() && i != j ==> (#[trigger] grid[i]).name != (
        #[trigger] grid[j]).name
}

/// Whether a screen is the last one of its cell.
pub open spec fn last_of_its_cell(grid: Seq<Cell>, k: int) -> bool {
    forall|m: int|
        k < m < grid.len() ==> (#[trigger] grid[m]).col != grid[k].col || grid[m].row
            != grid[k].row
}

proof fn lemma_row_keeps_the_last(
    screens: LayoutView,
    grid: Seq<Cell>,
    i: int,
    m: nat,
    p: int,
    q: int,
    edge: Edge,
)
    requires
        edge == Edge::Right || edge == Edge::Bottom,
        named_apart(grid),
        0 <= p <= i < grid.len(),
        0 <= q < grid.len(),
        m <= grid.len(),
        last_of_its_cell(grid, p),
        last_of_its_cell(grid, q),
        beside(grid[p], grid[q], edge),
        screens.contains_key(grid[p].name),
        screens.contains_key(grid[q].name),
        i > p ==> facing(screens, grid[p].name, edge, grid[q].name),
    ensures
        i > p || m > q ==> facing(
            joined_row(screens, grid, grid[i], m),
            grid[p].name,
            edge,
            grid[q].name,
        ),
    decreases m,
{
    if m > 0 {
        let before = joined_row(screens, grid, grid[i], (m - 1) as nat);
        lemma_row_keeps_the_last(screens, grid, i, (m - 1) as nat, p, q, edge);
        lemma_joining_keeps_the_screens(screens, grid, grid[i], (m - 1) as nat);
        assert(before.dom().contains(grid[p].name) && before.dom().contains(grid[q].name));
        if i > p || m - 1 > q {
            if beside(grid[i], grid[m - 1], edge) {
                assert(i != p);
                assert(m - 1 != q);
            }
            lemma_join_keeps_others(before, grid[i], grid[m - 1], grid[p], edge, grid[q]);
        }
    }
}

proof fn lemma_rows_keep_the_last(grid: Seq<Cell>, n: nat, p: int, q: int, edge: Edge)
    requires
        edge == Edge::Right || edge == Edge::Bottom,
        named_apart(grid),
        0 <= p < n <= grid.len(),
        0 <= q < grid.len(),
        last_of_its_cell(grid, p),
        last_of_its_cell(grid, q),
        beside(grid[p], grid[q], edge),
    ensures
        facing(joined_rows(grid, n), grid[p].name, edge, grid[q].name),
    decreases n,
{
    let before = joined_rows(grid, (n - 1) as nat);
    if n - 1 > p {
        lemma_rows_keep_the_last(grid, (n - 1) as nat, p, q, edge);
    }
    lemma_rows_keep_the_screens(grid, (n - 1) as nat);
    lemma_placed_names(grid, grid.len(), grid[p].name);
    lemma_placed_names(grid, grid.len(), grid[q].name);
    assert(before.dom().contains(grid[p].name) && before.dom().contains(grid[q].name));
    lemma_row_keeps_the_last(before, grid, n - 1, grid.len(), p, q, edge);
}

/// Where screens share a cell, the last of them counts: the last one of a cell and the last one of
/// the cell to its right, or below it, lead to each other.
pub proof fn lemma_last_of_a_cell_counts(grid: Seq<Cell>, p: int, q: int)
    requires
        named_apart(grid),
        0 <= p < grid.len(),
        0 <= q < grid.len(),
        last_of_its_cell(grid, p),
        last_of_its_cell(grid, q),
    ensures
        ({
            let (a, b) = (grid_layout(grid)[grid[p].name], grid_layout(grid)[grid[q].name]);
            let (x, y) = (grid[q].col - grid[p].col, grid[q].row - grid[p].row);
            &&& x == 1 && y == 0 ==> a.sides.right == Some(grid[q].name) && b.sides.left == Some(
                grid[p].name,
            )
            &&& x == 0 && y == 1 ==> a.sides.bottom == Some(grid[q].name) && b.sides.top == Some(
                grid[p].name,
            )
        }),
{
    if p != q {
        assert(grid[p].name != grid[q].name);
    }
    if beside(grid[p], grid[q], Edge::Right) {
        lemma_rows_keep_the_last(grid, grid.len(), p, q, Edge::Right);
    }
    if beside(grid[p], grid[q], Edge::Bottom) {
        lemma_rows_keep_the_last(grid, grid.len(), p, q, Edge::Bottom);
    }
}

} // verus!
