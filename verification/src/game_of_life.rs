use vstd::prelude::*;
use crate::css::Css;

verus! {

/// The column or row before `i` on a ring of `n`.
pub open spec fn prev(i: int, n: int) -> int {
    if i == 0 { n - 1 } else { i - 1 }
}

/// The column or row after `i` on a ring of `n`.
pub open spec fn next(i: int, n: int) -> int {
    if i + 1 == n { 0 } else { i + 1 }
}

pub open spec fn alive_count(b: bool) -> nat {
    if b { 1 } else { 0 }
}

/// The number of live cells among the eight neighbours of (`x`, `y`), the
/// board wrapping around at its edges; `g` is indexed by row, then column.
pub open spec fn neighbours(g: Seq<Seq<bool>>, xc: int, yc: int, x: int, y: int) -> nat {
    let (xp, xn, yp, yn) = (prev(x, xc), next(x, xc), prev(y, yc), next(y, yc));
    alive_count(g[yp][xp]) + alive_count(g[yp][x]) + alive_count(g[yp][xn])
        + alive_count(g[y][xp]) + alive_count(g[y][xn])
        + alive_count(g[yn][xp]) + alive_count(g[yn][x]) + alive_count(g[yn][xn])
}

/// Conway's rule: a live cell lives on with two or three live neighbours, a
/// dead cell comes alive with exactly three.
pub open spec fn next_cell(alive: bool, n: nat) -> bool {
    if alive { n == 2 || n == 3 } else { n == 3 }
}

/// The board of `yc` rows of `xc` cells one generation later.
pub open spec fn next_grid(g: Seq<Seq<bool>>, xc: int, yc: int) -> Seq<Seq<bool>> {
    Seq::new(yc as nat, |y: int| Seq::new(xc as nat, |x: int| next_cell(g[y][x], neighbours(g, xc, yc, x, y))))
}

/// `g` has `yc` rows of `xc` cells each.
pub open spec fn grid_shape(g: Seq<Seq<bool>>, xc: int, yc: int) -> bool {
    &&& g.len() == yc
    &&& forall|y: int| 0 <= y < yc ==> #[trigger] g[y].len() == xc
}

/// The board of `yc` rows of `xc` dead cells.
pub open spec fn dead_grid(xc: int, yc: int) -> Seq<Seq<bool>> {
    Seq::new(yc as nat, |y: int| Seq::new(xc as nat, |x: int| false))
}

/// The rows of a matrix as plain sequences.
pub open spec fn grid_of(m: Seq<Vec<bool>>) -> Seq<Seq<bool>> {
    m.map_values(|r: Vec<bool>| r@)
}

proof fn lemma_grid_of_push(m: Seq<Vec<bool>>, r: Vec<bool>)
    ensures
        grid_of(m.push(r)) == grid_of(m).push(r@),
{
    assert(grid_of(m.push(r)) =~= grid_of(m).push(r@));
}

/// A row of `x_count` dead cells.
pub fn create_matrix_row(x_count: u16) -> (row: Vec<bool>)
    ensures
        row@ == Seq::new(x_count as nat, |x: int| false),
{
    let mut row: Vec<bool> = Vec::new();
    let mut i: u16 = 0;
    while i < x_count
        invariant
            i <= x_count,
            row@ == Seq::new(i as nat, |x: int| false),
        decreases x_count - i,
    {
        row.push(false);
        i = i + 1;
        assert(row@ =~= Seq::new(i as nat, |x: int| false));
    }
    row
}

/// A board of `y_count` rows of `x_count` dead cells.
pub fn create_matrix(x_count: u16, y_count: u16) -> (m: Vec<Vec<bool>>)
    ensures
        grid_of(m@) == dead_grid(x_count as int, y_count as int),
{
    let mut matrix: Vec<Vec<bool>> = Vec::new();
    let mut j: u16 = 0;
    while j < y_count
        invariant
            j <= y_count,
            grid_of(matrix@) == dead_grid(x_count as int, j as int),
        decreases y_count - j,
    {
        let row = create_matrix_row(x_count);
        proof {
            lemma_grid_of_push(matrix@, row);
        }
        matrix.push(row);
        j = j + 1;
        assert(grid_of(matrix@) =~= dead_grid(x_count as int, j as int));
    }
    matrix
}

fn b2u(b: bool) -> (n: u8)
    ensures
        n == alive_count(b),
{
    if b { 1 } else { 0 }
}

#[verifier::spinoff_prover]
fn count_neighbours(m: &Vec<Vec<bool>>, x_count: u16, y_count: u16, x: u16, y: u16) -> (n: u8)
    requires
        grid_shape(grid_of(m@), x_count as int, y_count as int),
        x < x_count,
        y < y_count,
    ensures
        n == neighbours(grid_of(m@), x_count as int, y_count as int, x as int, y as int),
{
    let ghost g = grid_of(m@);
    let xp = if x == 0 { x_count - 1 } else { x - 1 };
    let xn = if x + 1 == x_count { 0 } else { x + 1 };
    let yp = if y == 0 { y_count - 1 } else { y - 1 };
    let yn = if y + 1 == y_count { 0 } else { y + 1 };
    assert(g[yp as int] == m@[yp as int]@);
    assert(g[y as int] == m@[y as int]@);
    assert(g[yn as int] == m@[yn as int]@);
    assert(g[yp as int].len() == x_count);
    assert(g[y as int].len() == x_count);
    assert(g[yn as int].len() == x_count);
    let up = &m[yp as usize];
    let mid = &m[y as usize];
    let down = &m[yn as usize];
    b2u(up[xp as usize]) + b2u(up[x as usize]) + b2u(up[xn as usize]) + b2u(mid[xp as usize]) + b2u(
        mid[xn as usize],
    ) + b2u(down[xp as usize]) + b2u(down[x as usize]) + b2u(down[xn as usize])
}

/// The board one generation later.
pub fn next_generation(x_count: u16, y_count: u16, matrix: &Vec<Vec<bool>>) -> (m: Vec<Vec<bool>>)
    requires
        grid_shape(grid_of(matrix@), x_count as int, y_count as int),
    ensures
        grid_of(m@) == next_grid(grid_of(matrix@), x_count as int, y_count as int),
{
    let ghost g = grid_of(matrix@);
    let ghost target = next_grid(g, x_count as int, y_count as int);
    let mut out: Vec<Vec<bool>> = Vec::new();
    let mut y: u16 = 0;
    while y < y_count
        invariant
            y <= y_count,
            g == grid_of(matrix@),
            target == next_grid(g, x_count as int, y_count as int),
            grid_shape(g, x_count as int, y_count as int),
            grid_of(out@) == target.take(y as int),
        decreases y_count - y,
    {
        let mut row: Vec<bool> = Vec::new();
        let mut x: u16 = 0;
        assert(g[y as int] == matrix@[y as int]@);
        while x < x_count
            invariant
                x <= x_count,
                y < y_count,
                g == grid_of(matrix@),
                target == next_grid(g, x_count as int, y_count as int),
                grid_shape(g, x_count as int, y_count as int),
                g[y as int] == matrix@[y as int]@,
                row@ == target[y as int].take(x as int),
            decreases x_count - x,
        {
            let n = count_neighbours(matrix, x_count, y_count, x, y);
            let alive = matrix[y as usize][x as usize];
            let cell = if alive { n == 2 || n == 3 } else { n == 3 };
            row.push(cell);
            x = x + 1;
            assert(row@ =~= target[y as int].take(x as int));
        }
        assert(row@ =~= target[y as int]);
        proof {
            lemma_grid_of_push(out@, row);
        }
        out.push(row);
        y = y + 1;
        assert(grid_of(out@) =~= target.take(y as int));
    }
    assert(target.take(y as int) =~= target);
    out
}

/// The style of the game's frame.
pub open spec fn wrapper_style() -> Seq<Seq<char>> {
    seq!["
        border: 1px solid black;
        padding: 10px;
        margin: 10px;
        background-color: #e0e0e0;
    "@]
}

/// The style of a row of cells.
pub open spec fn row_style() -> Seq<Seq<char>> {
    seq!["
        display: flex;
        flex-direction: row;
        height: 10px
    "@]
}

/// The style of a cell: its size and pointer, then black when alive, else white.
pub open spec fn cell_style(is_active: bool) -> Seq<Seq<char>> {
    seq![
        "
        width: 10px;
        height: 10px;
        cursor: pointer;
    "@,
        if is_active { "background-color: black"@ } else { "background-color: white"@ },
    ]
}

/// The style of the start and stop button.
pub open spec fn button_style() -> Seq<Seq<char>> {
    seq!["
        cursor: pointer;
    "@]
}

pub fn css_wrapper() -> (c: Css)
    ensures
        c@ == wrapper_style(),
{
    Css::one("
        border: 1px solid black;
        padding: 10px;
        margin: 10px;
        background-color: #e0e0e0;
    ")
}

pub fn css_row() -> (c: Css)
    ensures
        c@ == row_style(),
{
    Css::one("
        display: flex;
        flex-direction: row;
        height: 10px
    ")
}

/// The style of a cell: its size and pointer, then black when alive, else white.
pub fn css_cell(is_active: bool) -> (c: Css)
    ensures
        c@ == cell_style(is_active),
{
    let mut css = Css::one("
        width: 10px;
        height: 10px;
        cursor: pointer;
    ");
    if is_active {
        css.str("background-color: black");
    } else {
        css.str("background-color: white");
    }
    css
}

pub fn css_button() -> (c: Css)
    ensures
        c@ == button_style(),
{
    Css::one("
        cursor: pointer;
    ")
}

/// The state of the game: the board, whether the timer advances it, and
/// how many generations have passed.
pub struct State {
    x_count: u16,
    y_count: u16,
    matrix: Vec<Vec<bool>>,
    timer_enable: bool,
    year: u32,
}

/// What a click on the game's view asks for.
#[derive(Clone, Copy, PartialEq, Eq, Structural, Debug)]
pub enum ClickAction {
    /// Start (`true`) or stop (`false`) the timer.
    SetTimer { enable: bool },
    /// Set the cell in column `x` of row `y` to `alive`.
    SetCell { x: u16, y: u16, alive: bool },
}

/// The game as plain values.
pub struct LifeView {
    pub x_count: u16,
    pub y_count: u16,
    pub grid: Seq<Seq<bool>>,
    pub timer_enable: bool,
    pub year: u32,
}

impl LifeView {
    /// The board has `y_count` rows of `x_count` cells.
    pub open spec fn wf(self) -> bool {
        grid_shape(self.grid, self.x_count as int, self.y_count as int)
    }

    /// What a click asking for `action` does: set the timer on or off, or set
    /// one cell (a cell outside the board changes nothing).
    pub open spec fn apply(self, action: ClickAction) -> LifeView {
        match action {
            ClickAction::SetTimer { enable } => LifeView { timer_enable: enable, ..self },
            ClickAction::SetCell { x, y, alive } => if x < self.x_count && y < self.y_count {
                LifeView { grid: self.grid.update(y as int, self.grid[y as int].update(x as int, alive)), ..self }
            } else {
                self
            },
        }
    }

    /// One tick of the timer: when the timer is on, one more year and the
    /// next generation; else nothing changes.
    pub open spec fn tick(self) -> LifeView {
        if self.timer_enable {
            LifeView {
                year: (self.year + 1) as u32,
                grid: next_grid(self.grid, self.x_count as int, self.y_count as int),
                ..self
            }
        } else {
            self
        }
    }
}

impl View for State {
    type V = LifeView;

    closed spec fn view(&self) -> LifeView {
        LifeView {
            x_count: self.x_count,
            y_count: self.y_count,
            grid: grid_of(self.matrix@),
            timer_enable: self.timer_enable,
            year: self.year,
        }
    }
}

impl State {
    /// The board always has `y_count` rows of `x_count` cells.
    #[verifier::type_invariant]
    spec fn shape_inv(&self) -> bool {
        grid_shape(grid_of(self.matrix@), self.x_count as int, self.y_count as int)
    }

    /// A board of 70 rows of 120 dead cells, the timer off, year 0.
    pub fn new() -> (s: State)
        ensures
            s@.wf(),
            s@.x_count == 120,
            s@.y_count == 70,
            s@.grid == dead_grid(120, 70),
            !s@.timer_enable,
            s@.year == 0,
    {
        let x_count: u16 = 120;
        let y_count: u16 = 70;
        let matrix = create_matrix(x_count, y_count);
        State { x_count, y_count, matrix, timer_enable: false, year: 0 }
    }

    /// The period of the timer that drives the game, in milliseconds; each
    /// period the owner of the state calls `tick`.
    pub fn start_timer(&self) -> (period_ms: u32)
        ensures
            period_ms == 100,
    {
        100
    }

    /// One tick of the timer.
    pub fn tick(&mut self)
        requires
            old(self)@.timer_enable ==> old(self)@.year < u32::MAX,
        ensures
            final(self)@ == old(self)@.tick(),
            final(self)@.wf(),
    {
        proof {
            use_type_invariant(&*self);
        }
        if self.timer_enable {
            self.year = self.year + 1;
            let next = next_generation(self.x_count, self.y_count, &self.matrix);
            proof {
                let g = grid_of(next@);
                assert forall|y: int| 0 <= y < self.y_count implies #[trigger] g[y].len() == self.x_count by {}
            }
            self.matrix = next;
        }
        proof {
            use_type_invariant(&*self);
        }
    }

    /// Starts or stops the timer.
    pub fn set_timer_enable(&mut self, enable: bool)
        ensures
            final(self)@ == (LifeView { timer_enable: enable, ..old(self)@ }),
            final(self)@.wf(),
    {
        proof {
            use_type_invariant(&*self);
        }
        self.timer_enable = enable;
        proof {
            use_type_invariant(&*self);
        }
    }

    /// Sets the cell in column `x` of row `y` to `alive`.
    fn set_cell(&mut self, x: u16, y: u16, alive: bool)
        requires
            x < old(self)@.x_count,
            y < old(self)@.y_count,
        ensures
            final(self)@ == (LifeView {
                grid: old(self)@.grid.update(y as int, old(self)@.grid[y as int].update(x as int, alive)),
                ..old(self)@
            }),
    {
        proof {
            use_type_invariant(&*self);
        }
        let ghost g = grid_of(self.matrix@);
        assert(g[y as int] == self.matrix@[y as int]@);
        let mut row = self.matrix[y as usize].clone();
        row.set(x as usize, alive);
        let mut taken = State { x_count: 0, y_count: 0, matrix: Vec::new(), timer_enable: false, year: 0 };
        std::mem::swap(self, &mut taken);
        let State { x_count, y_count, mut matrix, timer_enable, year } = taken;
        matrix.set(y as usize, row);
        assert(grid_of(matrix@) =~= g.update(y as int, g[y as int].update(x as int, alive)));
        *self = State { x_count, y_count, matrix, timer_enable, year };
    }

    /// Carries out what a click on the view asks for.
    pub fn apply(&mut self, action: ClickAction)
        ensures
            final(self)@ == old(self)@.apply(action),
            final(self)@.wf(),
    {
        match action {
            ClickAction::SetTimer { enable } => self.set_timer_enable(enable),
            ClickAction::SetCell { x, y, alive } => {
                if x < self.x_count && y < self.y_count {
                    self.set_cell(x, y, alive);
                }
            },
        }
        proof {
            use_type_invariant(&*self);
        }
    }

    /// The width of the board, which has `y_count` rows of this many cells.
    pub fn x_count(&self) -> (n: u16)
        ensures
            n == self@.x_count,
            self@.wf(),
    {
        proof {
            use_type_invariant(self);
        }
        self.x_count
    }

    /// The height of the board, which has this many rows of `x_count` cells.
    pub fn y_count(&self) -> (n: u16)
        ensures
            n == self@.y_count,
            self@.wf(),
    {
        proof {
            use_type_invariant(self);
        }
        self.y_count
    }

    pub fn year(&self) -> (n: u32)
        ensures
            n == self@.year,
    {
        self.year
    }

    pub fn timer_enable(&self) -> (b: bool)
        ensures
            b == self@.timer_enable,
    {
        self.timer_enable
    }

    /// Whether the cell in column `x` of row `y` is alive.
    pub fn cell(&self, x: u16, y: u16) -> (b: bool)
        requires
            x < self@.x_count,
            y < self@.y_count,
        ensures
            b == self@.grid[y as int][x as int],
    {
        proof {
            use_type_invariant(self);
        }
        assert(grid_of(self.matrix@)[y as int] == self.matrix@[y as int]@);
        self.matrix[y as usize][x as usize]
    }
}

} // verus!
