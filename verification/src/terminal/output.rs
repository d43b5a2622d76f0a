use vstd::prelude::*;

use crate::arith::{lemma_row_major_index, trunc_div, trunc_rem};
use crate::vec2::Vec2;

verus! {

/// A blank cell (ASCII space).
pub const CHAR_EMPTY: u8 = 32;

/// A filled block in the console's code page.
pub const BLACK_BOX_CHAR: u8 = 178;

/// `A`, used for walls hit on the other axis.
pub const STRIP_BOX_CHAR: u8 = 65;

/// `@`.
pub const AT_CHAR: u8 = 64;

/// `-`.
pub const DASH_CHAR: u8 = 45;

/// The byte written over the whole back screen after a resize, just
/// before the screens are swapped.
pub const FORCE_PAINT_CHAR: u8 = 1;

/// Number of cells of a screen of `width` by `height` cells; a screen with
/// a negative side has none.
pub open spec fn screen_len(width: int, height: int) -> int {
    if width >= 0 && height >= 0 {
        width * height
    } else {
        0
    }
}

/// What a renderer holds: the size of the console, the screen shown last
/// (`front`) and the screen being drawn (`back`), one byte per cell, row
/// after row.
pub struct Screens {
    pub width: int,
    pub height: int,
    pub front: Seq<u8>,
    pub back: Seq<u8>,
}

/// One step of bringing the console up to date.
#[derive(Clone, Copy, Debug, PartialEq, Eq)]
pub enum ConsoleCommand {
    /// Move the console cursor to a cell.
    SetCursor(Vec2<i16>),
    /// Write `len` bytes of the front screen, from cell `start` on, at the
    /// cursor.
    Write { start: usize, len: i16 },
}

/// Moving the cursor to the top left corner.
pub open spec fn to_origin() -> ConsoleCommand {
    ConsoleCommand::SetCursor(Vec2 { x: 0, y: 0 })
}

/// The cursor position that a run starting at cell `start` is written at:
/// the cell number is cut to an `i16` and then split into column and row.
pub open spec fn cursor_at(start: int, width: int) -> Vec2<i16> {
    let t = (start as i16) as int;
    Vec2 { x: trunc_rem(t, width) as i16, y: trunc_div(t, width) as i16 }
}

/// The commands for a run of changed cells from `start` up to `end`
/// (exclusive) on a screen of `len` cells. A run that ends inside the
/// screen is written at its own cursor position; one that reaches the end
/// of the screen is written at the origin and without its last cell.
pub open spec fn run_commands(start: int, end: int, len: int, width: int) -> Seq<ConsoleCommand> {
    if end < len {
        seq![
            ConsoleCommand::SetCursor(cursor_at(start, width)),
            ConsoleCommand::Write { start: start as usize, len: (end - start) as i16 },
            to_origin(),
        ]
    } else {
        seq![ConsoleCommand::Write { start: start as usize, len: (len - 1 - start) as i16 }]
    }
}

/// The first cell at or after `i` where the two screens agree, or the end
/// of the screen.
pub open spec fn run_end(front: Seq<u8>, back: Seq<u8>, i: nat) -> nat
    decreases front.len() - i,
{
    if i >= front.len() {
        front.len()
    } else if front[i as int] == back[i as int] {
        i
    } else {
        run_end(front, back, i + 1)
    }
}

pub proof fn lemma_run_end_bounds(front: Seq<u8>, back: Seq<u8>, i: nat)
    requires
        i <= front.len(),
    ensures
        i <= run_end(front, back, i) <= front.len(),
    decreases front.len() - i,
{
    if i < front.len() && front[i as int] != back[i as int] {
        lemma_run_end_bounds(front, back, i + 1);
    }
}

/// The commands for the maximal runs of cells, from cell `i` on, in which
/// the front and the back screen differ, in order.
pub open spec fn changes_from(front: Seq<u8>, back: Seq<u8>, width: int, i: nat) -> Seq<ConsoleCommand>
    decreases front.len() - i,
{
    if i >= front.len() {
        Seq::empty()
    } else if front[i as int] == back[i as int] {
        changes_from(front, back, width, i + 1)
    } else {
        let end = run_end(front, back, i + 1);
        proof {
            lemma_run_end_bounds(front, back, i + 1);
        }
        run_commands(i as int, end as int, front.len() as int, width) + changes_from(
            front,
            back,
            width,
            end,
        )
    }
}

impl Screens {
    /// Both screens have one byte per cell of the console, and their cells
    /// can be numbered by a `usize`.
    pub open spec fn wf(self) -> bool {
        &&& self.front.len() <= usize::MAX
        &&& self.front.len() == screen_len(self.width, self.height)
        &&& self.back.len() == screen_len(self.width, self.height)
    }

    pub open spec fn contains(self, pos: Vec2<i32>) -> bool {
        0 <= pos.x < self.width && 0 <= pos.y < self.height
    }

    pub open spec fn cell_index(self, pos: Vec2<i32>) -> int {
        self.width * pos.y + pos.x
    }

    /// The screens after `ch` is drawn at `pos` of the back screen; a
    /// position outside the console changes nothing.
    pub open spec fn with_point(self, pos: Vec2<i32>, ch: u8) -> Screens {
        if self.contains(pos) {
            Screens {
                width: self.width,
                height: self.height,
                front: self.front,
                back: self.back.update(self.cell_index(pos), ch),
            }
        } else {
            self
        }
    }

    /// The screens with every cell of the back screen set to `value`.
    pub open spec fn with_back_filled(self, value: u8) -> Screens {
        Screens {
            width: self.width,
            height: self.height,
            front: self.front,
            back: Seq::new(self.back.len(), |i: int| value),
        }
    }

    /// The screens with front and back exchanged.
    pub open spec fn swapped(self) -> Screens {
        Screens { width: self.width, height: self.height, front: self.back, back: self.front }
    }

    /// The screens for a console of `width` by `height` cells. Screens of
    /// the right length are kept; otherwise the front screen is filled with
    /// `FORCE_PAINT_CHAR` and the back screen is blank.
    pub open spec fn resized(self, width: int, height: int) -> Screens {
        let len = screen_len(width, height);
        if len == self.front.len() && len == self.back.len() {
            Screens { width, height, front: self.front, back: self.back }
        } else {
            Screens {
                width,
                height,
                front: Seq::new(len as nat, |i: int| FORCE_PAINT_CHAR),
                back: Seq::new(len as nat, |i: int| CHAR_EMPTY),
            }
        }
    }

    /// The screens at the start of a frame on a console of the given size:
    /// resized, with a blank back screen.
    pub open spec fn updated(self, width: int, height: int) -> Screens {
        self.resized(width, height).with_back_filled(CHAR_EMPTY)
    }

    /// The commands that bring the console from the back screen to the
    /// front screen: the cursor to the origin, the changed runs, and the
    /// cursor to the origin again.
    pub open spec fn frame(self) -> Seq<ConsoleCommand> {
        seq![to_origin()] + changes_from(self.front, self.back, self.width, 0) + seq![to_origin()]
    }
}

/// Normalizes a drawing position for the console's cells, which are about
/// twice as high as wide: the row is halved, rounding toward zero.
pub open spec fn normalized(pos: Vec2<i32>) -> Vec2<i32> {
    Vec2 { x: pos.x, y: trunc_div(pos.y as int, 2) as i32 }
}

/// The console's size and its two screens, kept together so that they can
/// be taken out of a `Renderer` and changed as one.
struct SwapChain {
    screen_dimensions: Vec2<i16>,
    front: Vec<u8>,
    back: Vec<u8>,
}

impl View for SwapChain {
    type V = Screens;

    closed spec fn view(&self) -> Screens {
        Screens {
            width: self.screen_dimensions.x as int,
            height: self.screen_dimensions.y as int,
            front: self.front@,
            back: self.back@,
        }
    }
}

/// A double-buffered character screen for a text console. Its screens
/// always have one byte per cell of the console.
pub struct Renderer {
    swap_chain: SwapChain,
}

impl View for Renderer {
    type V = Screens;

    closed spec fn view(&self) -> Screens {
        self.swap_chain@
    }
}

/// Sets every cell of `screen` to `value`.
fn fill_screen(screen: &mut Vec<u8>, value: u8)
    ensures
        final(screen)@ == Seq::new(old(screen)@.len(), |i: int| value),
{
    let len = screen.len();
    let mut i: usize = 0;
    while i < len
        invariant
            i <= len,
            screen@.len() == len,
            len == old(screen)@.len(),
            forall|k: int| 0 <= k < i ==> screen@[k] == value,
        decreases len - i,
    {
        screen.set(i, value);
        i += 1;
    }
    assert(screen@ =~= Seq::new(old(screen)@.len(), |i: int| value));
}

/// The cursor position for cell `start` of a console `width` cells wide.
fn cursor_position(start: usize, width: i16) -> (pos: Vec2<i16>)
    requires
        width > 0,
    ensures
        pos == cursor_at(start as int, width as int),
{
    let t = start as i16;
    Vec2 { x: t % width, y: t / width }
}

impl Renderer {
    #[verifier::type_invariant]
    spec fn screens_fit(self) -> bool {
        self.swap_chain@.wf()
    }

    /// A renderer for a console of unknown size, with empty screens.
    pub fn new() -> (r: Renderer)
        ensures
            r@.wf(),
            r@.width == -1,
            r@.height == -1,
            r@.front == Seq::<u8>::empty(),
            r@.back == Seq::<u8>::empty(),
    {
        Renderer { swap_chain: SwapChain::empty() }
    }

    /// Takes the screens out, leaving empty ones of unknown size.
    fn take_swap_chain(&mut self) -> (chain: SwapChain)
        ensures
            chain@ == old(self)@,
            chain@.wf(),
    {
        proof {
            use_type_invariant(&*self);
        }
        let mut chain = SwapChain::empty();
        std::mem::swap(&mut chain, &mut self.swap_chain);
        chain
    }

    /// Draws `ch` at `pos` of the back screen, if `pos` lies on the console.
    pub fn draw_point_unnormalized(&mut self, pos: Vec2<i32>, ch: u8)
        ensures
            final(self)@.wf(),
            final(self)@ == old(self)@.with_point(pos, ch),
            !old(self)@.contains(pos) ==> final(self)@ == old(self)@,
    {
        let mut chain = self.take_swap_chain();
        if chain.check_if_in_boundries(pos) {
            let w = chain.screen_dimensions.x as i32;
            let h = chain.screen_dimensions.y as i32;
            proof {
                lemma_cell_in_screen(w as int, h as int, pos.x as int, pos.y as int);
            }
            let idx = (w * pos.y + pos.x) as usize;
            chain.get_back_screen().set(idx, ch);
        }
        self.swap_chain = chain;
    }

    /// Draws `ch` at `pos` with the row halved (rounding toward zero), as
    /// a console cell is about twice as high as wide.
    pub fn draw_point(&mut self, pos: Vec2<i32>, ch: u8)
        ensures
            final(self)@.wf(),
            final(self)@ == old(self)@.with_point(normalized(pos), ch),
    {
        let mut pos = pos;
        pos.y = pos.y / 2;
        self.draw_point_unnormalized(pos, ch);
    }

    /// Starts a frame on a console of `dims` cells: the screens are resized
    /// where the size of the console changed, and the back screen is
    /// cleared. A side may be negative only where the other is zero.
    pub fn update(&mut self, dims: Vec2<i16>)
        requires
            (dims.x >= 0 && dims.y >= 0) || dims.x == 0 || dims.y == 0,
        ensures
            final(self)@.wf(),
            final(self)@ == old(self)@.updated(dims.x as int, dims.y as int),
    {
        let mut chain = self.take_swap_chain();
        chain.resize(dims);
        chain.clear_whole_screen();
        self.swap_chain = chain;
    }

    /// Shows the back screen: the screens are swapped and the commands that
    /// bring the console from the old front screen to the new one are
    /// returned.
    pub fn render(&mut self) -> (commands: Vec<ConsoleCommand>)
        ensures
            final(self)@.wf(),
            final(self)@ == old(self)@.swapped(),
            commands@ == final(self)@.frame(),
    {
        let mut chain = self.take_swap_chain();
        chain.swap_screens();
        let commands = chain.render_frame();
        self.swap_chain = chain;
        commands
    }

    /// The size of the console, in cells.
    pub fn get_screen_dim(&self) -> (dims: &Vec2<i16>)
        ensures
            dims.x == self@.width,
            dims.y == self@.height,
    {
        &self.swap_chain.screen_dimensions
    }

    /// The screen shown last.
    pub fn front_screen(&self) -> (screen: &Vec<u8>)
        ensures
            screen@ == self@.front,
    {
        &self.swap_chain.front
    }
}

impl SwapChain {
    spec fn wf(&self) -> bool {
        self@.wf()
    }

    /// No console size yet, and empty screens.
    fn empty() -> (chain: SwapChain)
        ensures
            chain@.wf(),
            chain@.width == -1,
            chain@.height == -1,
            chain@.front == Seq::<u8>::empty(),
            chain@.back == Seq::<u8>::empty(),
    {
        let chain = SwapChain {
            screen_dimensions: Vec2 { x: -1, y: -1 },
            front: Vec::new(),
            back: Vec::new(),
        };
        assert(chain.front@ =~= Seq::<u8>::empty());
        chain
    }

    fn get_front_screen(&mut self) -> (screen: &mut Vec<u8>)
        ensures
            *screen == old(self).front,
            final(self).front == *final(screen),
            final(self).back == old(self).back,
            final(self).screen_dimensions == old(self).screen_dimensions,
    {
        &mut self.front
    }

    fn get_back_screen(&mut self) -> (screen: &mut Vec<u8>)
        ensures
            *screen == old(self).back,
            final(self).back == *final(screen),
            final(self).front == old(self).front,
            final(self).screen_dimensions == old(self).screen_dimensions,
    {
        &mut self.back
    }

    fn check_if_in_boundries(&self, pos: Vec2<i32>) -> (inside: bool)
        ensures
            inside == self@.contains(pos),
    {
        if (pos.x >= self.screen_dimensions.x as i32) || (pos.y >= self.screen_dimensions.y as i32)
            || (pos.x < 0) || (pos.y < 0) {
            return false;
        } else {
            return true;
        }
    }

    fn resize(&mut self, dims: Vec2<i16>)
        requires
            old(self).wf(),
            (dims.x >= 0 && dims.y >= 0) || dims.x == 0 || dims.y == 0,
        ensures
            final(self).wf(),
            final(self)@ == old(self)@.resized(dims.x as int, dims.y as int),
    {
        self.screen_dimensions = dims;
        proof {
            lemma_screen_len_fits(dims.x as int, dims.y as int);
        }
        let xs = dims.x as usize;
        let ys = dims.y as usize;
        proof {
            lemma_side_product(dims.x as int, dims.y as int, xs as int, ys as int);
        }
        let len = xs * ys;
        if len != self.get_front_screen().len() || len != self.get_back_screen().len() {
            self.get_back_screen().resize(len, CHAR_EMPTY);
            self.get_front_screen().resize(len, CHAR_EMPTY);
            self.force_paint_whole_screen();
            self.swap_screens();
            self.clear_whole_screen();
            assert(self.front@ =~= Seq::new(len as nat, |i: int| FORCE_PAINT_CHAR));
        }
    }

    fn clear_whole_screen(&mut self)
        ensures
            final(self)@ == old(self)@.with_back_filled(CHAR_EMPTY),
    {
        fill_screen(self.get_back_screen(), CHAR_EMPTY);
    }

    fn force_paint_whole_screen(&mut self)
        ensures
            final(self)@ == old(self)@.with_back_filled(FORCE_PAINT_CHAR),
    {
        fill_screen(self.get_back_screen(), FORCE_PAINT_CHAR);
    }

    fn blackout_whole_screen(&mut self)
        ensures
            final(self)@ == old(self)@.with_back_filled(BLACK_BOX_CHAR),
    {
        fill_screen(self.get_back_screen(), BLACK_BOX_CHAR);
    }

    fn swap_screens(&mut self)
        ensures
            final(self)@ == old(self)@.swapped(),
    {
        std::mem::swap(&mut self.front, &mut self.back);
    }

    /// The commands that bring the console from the back screen to the
    /// front screen.
    fn render_frame(&self) -> (commands: Vec<ConsoleCommand>)
        requires
            self.wf(),
        ensures
            commands@ == self@.frame(),
    {
        let len = self.front.len();
        let width = self.screen_dimensions.x;
        let ghost front = self.front@;
        let ghost back = self.back@;
        let ghost w = width as int;
        let ghost total = seq![to_origin()] + changes_from(front, back, w, 0);
        let mut commands: Vec<ConsoleCommand> = Vec::new();
        commands.push(ConsoleCommand::SetCursor(Vec2 { x: 0, y: 0 }));
        let mut anchor: Option<usize> = None;
        let mut i: usize = 0;
        assert(commands@ =~= seq![to_origin()]);
        while i < len
            invariant
                self.wf(),
                front == self.front@,
                back == self.back@,
                w == self.screen_dimensions.x as int,
                width == self.screen_dimensions.x,
                len == front.len(),
                i <= len,
                total == seq![to_origin()] + changes_from(front, back, w, 0),
                match anchor {
                    None => commands@ + changes_from(front, back, w, i as nat) == total,
                    Some(a) => {
                        &&& a < i
                        &&& commands@ + run_commands(
                            a as int,
                            run_end(front, back, i as nat) as int,
                            len as int,
                            w,
                        ) + changes_from(front, back, w, run_end(front, back, i as nat)) == total
                    },
                },
            decreases len - i,
        {
            proof {
                lemma_run_end_bounds(front, back, (i + 1) as nat);
            }
            let differs = self.front[i] != self.back[i];
            if anchor.is_none() && differs {
                anchor = Some(i);
            }
            match anchor {
                Some(a) => {
                    if !differs {
                        proof {
                            lemma_positive_width(w, self.screen_dimensions.y as int);
                        }
                        let ghost before = commands@;
                        commands.push(ConsoleCommand::SetCursor(cursor_position(a, width)));
                        commands.push(ConsoleCommand::Write { start: a, len: (i - a) as i16 });
                        commands.push(ConsoleCommand::SetCursor(Vec2 { x: 0, y: 0 }));
                        anchor = None;
                        assert(commands@ =~= before + run_commands(a as int, i as int, len as int, w));
                        assert(before + run_commands(a as int, i as int, len as int, w)
                            + changes_from(front, back, w, (i + 1) as nat) =~= commands@
                            + changes_from(front, back, w, (i + 1) as nat));
                    } else {
                        assert(run_end(front, back, i as nat) == run_end(front, back, (i + 1) as nat));
                    }
                },
                None => {},
            }
            i += 1;
        }
        match anchor {
            Some(a) => {
                let ghost before = commands@;
                commands.push(ConsoleCommand::Write { start: a, len: (len - 1 - a) as i16 });
                assert(commands@ =~= before + run_commands(a as int, len as int, len as int, w));
            },
            None => {},
        }
        let ghost before = commands@;
        commands.push(ConsoleCommand::SetCursor(Vec2 { x: 0, y: 0 }));
        assert(commands@ =~= before + seq![to_origin()]);
        assert(commands@ =~= self@.frame());
        commands
    }
}

proof fn lemma_cell_in_screen(w: int, h: int, x: int, y: int)
    requires
        0 <= x < w,
        0 <= y < h,
        w <= 0x7fff,
        h <= 0x7fff,
    ensures
        0 <= w * y + x < w * h,
        w * h <= 0x7fff * 0x7fff,
        w * y + x <= 0x7fff * 0x7fff,
{
    lemma_row_major_index(w, h, x, y);
    assert(w * h <= 0x7fff * 0x7fff) by (nonlinear_arith)
        requires
            0 <= w <= 0x7fff,
            0 <= h <= 0x7fff,
    ;
}

proof fn lemma_screen_len_fits(w: int, h: int)
    requires
        (w >= 0 && h >= 0) || w == 0 || h == 0,
        -0x8000 <= w <= 0x7fff,
        -0x8000 <= h <= 0x7fff,
    ensures
        0 <= screen_len(w, h) <= 0x7fff * 0x7fff,
        w < 0 || h < 0 ==> screen_len(w, h) == 0,
{
    if w >= 0 && h >= 0 {
        assert(w * h <= 0x7fff * 0x7fff) by (nonlinear_arith)
            requires
                0 <= w <= 0x7fff,
                0 <= h <= 0x7fff,
        ;
        assert(0 <= w * h) by (nonlinear_arith)
            requires
                0 <= w,
                0 <= h,
        ;
    }
}

proof fn lemma_side_product(w: int, h: int, ws: int, hs: int)
    requires
        (w >= 0 && h >= 0) || w == 0 || h == 0,
        -0x8000 <= w <= 0x7fff,
        -0x8000 <= h <= 0x7fff,
        w >= 0 ==> ws == w,
        h >= 0 ==> hs == h,
        ws >= 0,
        hs >= 0,
    ensures
        ws * hs == screen_len(w, h),
{
    lemma_screen_len_fits(w, h);
    if w >= 0 && h >= 0 {
    } else if w == 0 {
        assert(ws * hs == 0) by (nonlinear_arith)
            requires
                ws == 0,
        ;
    } else {
        assert(ws * hs == 0) by (nonlinear_arith)
            requires
                hs == 0,
        ;
    }
}

proof fn lemma_positive_width(w: int, h: int)
    requires
        screen_len(w, h) > 0,
    ensures
        w > 0,
{
    if w == 0 {
        assert(w * h == 0) by (nonlinear_arith)
            requires
                w == 0,
        ;
    }
}

} // verus!

verus! {

proof fn lemma_no_changes(front: Seq<u8>, back: Seq<u8>, width: int, i: nat)
    requires
        front == back,
    ensures
        changes_from(front, back, width, i) == Seq::<ConsoleCommand>::empty(),
    decreases front.len() - i,
{
    if i < front.len() {
        lemma_no_changes(front, back, width, i + 1);
    }
}

proof fn lemma_writes_in_changes(front: Seq<u8>, back: Seq<u8>, width: int, i: nat)
    requires
        front.len() == back.len(),
        front.len() <= usize::MAX,
    ensures
        forall|k: int|
            0 <= k < changes_from(front, back, width, i).len() ==> (
            #[trigger] changes_from(front, back, width, i)[k] matches ConsoleCommand::Write { start, .. }
                ==> i <= start < front.len() && front[start as int] != back[start as int]),
    decreases front.len() - i,
{
    if i < front.len() {
        if front[i as int] == back[i as int] {
            lemma_writes_in_changes(front, back, width, i + 1);
        } else {
            let end = run_end(front, back, i + 1);
            lemma_run_end_bounds(front, back, i + 1);
            lemma_writes_in_changes(front, back, width, end);
            let run = run_commands(i as int, end as int, front.len() as int, width);
            let rest = changes_from(front, back, width, end);
            assert(changes_from(front, back, width, i) == run + rest);
            assert forall|k: int|
                0 <= k < (run + rest).len() && (#[trigger] (run + rest)[k] matches ConsoleCommand::Write {
                    start,
                    ..
                }) implies {
                let start = (run + rest)[k]->start;
                i <= start < front.len() && front[start as int] != back[start as int]
            } by {
                if k >= run.len() {
                    assert((run + rest)[k] == rest[k - run.len()]);
                } else {
                    assert((run + rest)[k] == run[k]);
                }
            }
        }
    }
}

/// Whether the cursor position `p` is cell `cell` of a console `width`
/// cells wide: its column lies on the console and row times width plus
/// column is the cell.
pub open spec fn cursor_on_cell(p: Vec2<i16>, cell: int, width: int) -> bool {
    0 <= p.x < width && p.y * width + p.x == cell
}

/// Whether every cell from `start` to the end of the screen changed.
pub open spec fn changed_to_end(front: Seq<u8>, back: Seq<u8>, start: int) -> bool {
    forall|j: int| start <= j < front.len() ==> front[j] != back[j]
}

/// Whether writing `len` cells from `start` writes a maximal run of changed
/// cells: all written cells changed, the cell before the run did not, the
/// write stays inside the screen, and the cell after the write is either
/// unchanged or the last cell of a run that reaches the end of the screen.
pub open spec fn writes_changed_run(front: Seq<u8>, back: Seq<u8>, start: int, len: int) -> bool {
    &&& 0 <= start
    &&& 0 <= len
    &&& start + len < front.len()
    &&& front[start] != back[start]
    &&& forall|j: int| start <= j < start + len ==> front[j] != back[j]
    &&& start == 0 || front[start - 1] == back[start - 1]
    &&& front[start + len] == back[start + len] || (changed_to_end(front, back, start) && start
        + len == front.len() - 1)
}

proof fn lemma_run_end_stops(front: Seq<u8>, back: Seq<u8>, i: nat)
    requires
        i <= front.len(),
        run_end(front, back, i) < front.len(),
    ensures
        front[run_end(front, back, i) as int] == back[run_end(front, back, i) as int],
    decreases front.len() - i,
{
    if i < front.len() && front[i as int] != back[i as int] {
        lemma_run_end_stops(front, back, i + 1);
    }
}

proof fn lemma_cursor_at_is_cell(cell: int, width: int)
    requires
        0 <= cell <= 0x7fff,
        0 < width <= 0x7fff,
    ensures
        cursor_on_cell(cursor_at(cell, width), cell, width),
{
    assert((cell as i16) as int == cell);
    vstd::arithmetic::div_mod::lemma_fundamental_div_mod(cell, width);
    vstd::arithmetic::div_mod::lemma_mod_pos_bound(cell, width);
    assert(0 <= cell / width <= cell) by (nonlinear_arith)
        requires
            0 <= cell,
            0 < width,
    ;
    let p = cursor_at(cell, width);
    assert(p.x == cell % width);
    assert(p.y == cell / width);
    assert(p.y * width + p.x == cell) by (nonlinear_arith)
        requires
            cell == width * (cell / width) + (cell % width),
            p.x == cell % width,
            p.y == cell / width,
    ;
}

/// Whether a command, if it is a write, writes a maximal run of changed
/// cells (see `writes_changed_run`).
pub open spec fn write_of_changed_run(front: Seq<u8>, back: Seq<u8>, c: ConsoleCommand) -> bool {
    match c {
        ConsoleCommand::Write { start, len } => writes_changed_run(
            front,
            back,
            start as int,
            len as int,
        ),
        _ => true,
    }
}

/// Whether a cursor move `c` followed by a write `next` puts the cursor on
/// the cell the write starts at, or, for a run that reaches the end of the
/// screen, at the origin.
pub open spec fn cursor_fits_write(
    front: Seq<u8>,
    back: Seq<u8>,
    width: int,
    c: ConsoleCommand,
    next: ConsoleCommand,
) -> bool {
    match (c, next) {
        (ConsoleCommand::SetCursor(p), ConsoleCommand::Write { start, .. }) => cursor_on_cell(
            p,
            start as int,
            width,
        ) || (p == Vec2::<i16> { x: 0, y: 0 } && changed_to_end(front, back, start as int)),
        _ => true,
    }
}

proof fn lemma_changes_shape(front: Seq<u8>, back: Seq<u8>, width: int, i: nat)
    requires
        front.len() == back.len(),
        front.len() <= 0x7fff,
        front.len() > 0 ==> 0 < width <= 0x7fff,
        i <= front.len(),
        i == 0 || i == front.len() || front[i - 1] == back[i - 1] || front[i as int]
            == back[i as int],
    ensures
        forall|k: int|
            0 <= k < changes_from(front, back, width, i).len() ==> write_of_changed_run(
                front,
                back,
                #[trigger] changes_from(front, back, width, i)[k],
            ),
        forall|k: int|
            0 <= k < changes_from(front, back, width, i).len() - 1 ==> cursor_fits_write(
                front,
                back,
                width,
                #[trigger] changes_from(front, back, width, i)[k],
                changes_from(front, back, width, i)[k + 1],
            ),
        changes_from(front, back, width, i).len() > 0 ==> cursor_fits_write(
            front,
            back,
            width,
            to_origin(),
            changes_from(front, back, width, i)[0],
        ),
    decreases front.len() - i,
{
    let cmds = changes_from(front, back, width, i);
    if i >= front.len() {
        assert(cmds.len() == 0);
    } else if front[i as int] == back[i as int] {
        lemma_changes_shape(front, back, width, i + 1);
        assert(cmds == changes_from(front, back, width, i + 1));
    } else {
        let end = run_end(front, back, i + 1);
        lemma_run_end_bounds(front, back, i + 1);
        assert(run_end(front, back, i) == end);
        let len = front.len() as int;
        let run = run_commands(i as int, end as int, len, width);
        let rest = changes_from(front, back, width, end);
        assert(cmds == run + rest);
        assert forall|j: int| i <= j < end implies front[j] != back[j] by {
            lemma_run_end_inside(front, back, i, j as nat);
        }
        if end < len {
            lemma_run_end_stops(front, back, i);
        }
        lemma_changes_shape(front, back, width, end);
        if end < len {
            lemma_cursor_at_is_cell(i as int, width);
            let w = ConsoleCommand::Write { start: i as usize, len: (end - i) as i16 };
            assert(run == seq![ConsoleCommand::SetCursor(cursor_at(i as int, width)), w, to_origin()]);
            assert(writes_changed_run(front, back, i as int, end - i));
            assert(cursor_fits_write(front, back, width, run[0], run[1]));
            assert forall|k: int| 0 <= k < cmds.len() implies write_of_changed_run(
                front,
                back,
                #[trigger] cmds[k],
            ) by {
                if k >= 3 {
                    assert(cmds[k] == rest[k - 3]);
                }
            }
            assert forall|k: int| 0 <= k < cmds.len() - 1 implies cursor_fits_write(
                front,
                back,
                width,
                #[trigger] cmds[k],
                cmds[k + 1],
            ) by {
                if k >= 3 {
                    assert(cmds[k] == rest[k - 3]);
                    assert(cmds[k + 1] == rest[k + 1 - 3]);
                } else if k == 2 {
                    assert(cmds[k + 1] == rest[0]);
                }
            }
        } else {
            assert(rest.len() == 0);
            let w = ConsoleCommand::Write { start: i as usize, len: (len - 1 - i) as i16 };
            assert(run == seq![w]);
            assert(changed_to_end(front, back, i as int));
            assert(writes_changed_run(front, back, i as int, len - 1 - i));
            assert(cmds =~= seq![w]);
        }
    }
}

proof fn lemma_frame_shape(s: Screens)
    requires
        s.wf(),
        s.front.len() <= 0x7fff,
    ensures
        forall|k: int|
            0 <= k < s.frame().len() ==> write_of_changed_run(s.front, s.back, #[trigger] s.frame()[k]),
        forall|k: int|
            0 <= k < s.frame().len() - 1 ==> cursor_fits_write(
                s.front,
                s.back,
                s.width,
                #[trigger] s.frame()[k],
                s.frame()[k + 1],
            ),
{
    if s.front.len() > 0 {
        lemma_positive_width(s.width, s.height);
        assert(s.width <= 0x7fff) by (nonlinear_arith)
            requires
                s.width * s.height <= 0x7fff,
                s.width > 0,
                s.height >= 0,
                s.width * s.height > 0,
        ;
    }
    let changes = changes_from(s.front, s.back, s.width, 0);
    lemma_changes_shape(s.front, s.back, s.width, 0);
    let f = s.frame();
    assert(f == seq![to_origin()] + changes + seq![to_origin()]);
    assert forall|k: int| 0 <= k < f.len() implies write_of_changed_run(
        s.front,
        s.back,
        #[trigger] f[k],
    ) by {
        if 1 <= k <= changes.len() {
            assert(f[k] == changes[k - 1]);
        }
    }
    assert forall|k: int| 0 <= k < f.len() - 1 implies cursor_fits_write(
        s.front,
        s.back,
        s.width,
        #[trigger] f[k],
        f[k + 1],
    ) by {
        if k == 0 {
            if changes.len() > 0 {
                assert(f[1] == changes[0]);
            }
        } else if k < changes.len() {
            assert(f[k] == changes[k - 1]);
            assert(f[k + 1] == changes[k]);
        } else {
            assert(f[k + 1] == to_origin());
        }
    }
}

/// On a console of fewer than 32768 cells, every write of a frame writes
/// a maximal run of changed cells and stays inside the screen: the write
/// ends on an unchanged cell, or, for a run that reaches the end of the
/// screen, on its last cell, which is not written.
pub proof fn law_frame_writes_changed_runs(s: Screens)
    requires
        s.wf(),
        s.front.len() <= 0x7fff,
    ensures
        forall|k: int|
            0 <= k < s.frame().len() ==> (#[trigger] s.frame()[k] matches ConsoleCommand::Write {
                start,
                len,
            } ==> writes_changed_run(s.front, s.back, start as int, len as int)),
{
    lemma_frame_shape(s);
    assert forall|k: int| 0 <= k < s.frame().len() implies (#[trigger] s.frame()[k] matches ConsoleCommand::Write {
        start,
        len,
    } ==> writes_changed_run(s.front, s.back, start as int, len as int)) by {
        assert(write_of_changed_run(s.front, s.back, s.frame()[k]));
    }
}

/// On a console of fewer than 32768 cells, the cursor move just before
/// each write of a frame puts the cursor on the cell the write starts at
/// (row times width plus column is that cell), except for a run that
/// reaches the end of the screen, which is written at the origin.
pub proof fn law_frame_cursor_on_write_start(s: Screens)
    requires
        s.wf(),
        s.front.len() <= 0x7fff,
    ensures
        forall|k: int|
            0 <= k < s.frame().len() - 1 ==> (#[trigger] s.frame()[k] matches ConsoleCommand::SetCursor(p)
                ==> (s.frame()[k + 1] matches ConsoleCommand::Write { start, .. }
                ==> (cursor_on_cell(p, start as int, s.width) || (p == Vec2::<i16> { x: 0, y: 0 }
                && changed_to_end(s.front, s.back, start as int))))),
{
    lemma_frame_shape(s);
    assert forall|k: int| 0 <= k < s.frame().len() - 1 implies (#[trigger] s.frame()[k] matches ConsoleCommand::SetCursor(p)
        ==> (s.frame()[k + 1] matches ConsoleCommand::Write { start, .. }
        ==> (cursor_on_cell(p, start as int, s.width) || (p == Vec2::<i16> { x: 0, y: 0 }
        && changed_to_end(s.front, s.back, start as int))))) by {
        assert(cursor_fits_write(s.front, s.back, s.width, s.frame()[k], s.frame()[k + 1]));
    }
}

/// Whether a command writes cell `j`.
pub open spec fn writes_cell(c: ConsoleCommand, j: int) -> bool {
    match c {
        ConsoleCommand::Write { start, len } => start <= j < start + len,
        _ => false,
    }
}

proof fn lemma_run_end_inside(front: Seq<u8>, back: Seq<u8>, i: nat, j: nat)
    requires
        i <= j < run_end(front, back, i),
    ensures
        run_end(front, back, j) == run_end(front, back, i),
        front[j as int] != back[j as int],
    decreases j - i,
{
    if i < j {
        lemma_run_end_inside(front, back, i + 1, j);
    }
}

proof fn lemma_changed_cell_in_changes(front: Seq<u8>, back: Seq<u8>, width: int, i: nat, j: nat)
    requires
        front.len() == back.len(),
        front.len() <= 0x7fff,
        i <= j < front.len(),
        front[j as int] != back[j as int],
        run_end(front, back, j) < front.len(),
    ensures
        exists|k: int|
            0 <= k < changes_from(front, back, width, i).len() && writes_cell(
                #[trigger] changes_from(front, back, width, i)[k],
                j as int,
            ),
    decreases front.len() - i,
{
    if front[i as int] == back[i as int] {
        lemma_changed_cell_in_changes(front, back, width, i + 1, j);
        assert(changes_from(front, back, width, i) == changes_from(front, back, width, i + 1));
    } else {
        let end = run_end(front, back, i + 1);
        lemma_run_end_bounds(front, back, i + 1);
        let run = run_commands(i as int, end as int, front.len() as int, width);
        let rest = changes_from(front, back, width, end);
        assert(changes_from(front, back, width, i) == run + rest);
        assert(run_end(front, back, i) == end);
        if j < end {
            lemma_run_end_inside(front, back, i, j);
            assert(end < front.len());
            assert(run[1] == ConsoleCommand::Write { start: i as usize, len: (end - i) as i16 });
            assert((run + rest)[1] == run[1]);
            assert(writes_cell((run + rest)[1], j as int));
        } else {
            lemma_changed_cell_in_changes(front, back, width, end, j);
            let k = choose|k: int| 0 <= k < rest.len() && writes_cell(#[trigger] rest[k], j as int);
            assert((run + rest)[run.len() + k] == rest[k]);
            assert(writes_cell((run + rest)[run.len() + k], j as int));
        }
    }
}

/// On a console of at most `i16::MAX` cells, every changed cell whose run
/// of changes ends before the end of the screen is written by the frame.
/// (A run that reaches the end of the screen is written without its last
/// cell.)
pub proof fn law_changed_cells_are_written(s: Screens, j: int)
    requires
        s.wf(),
        s.front.len() <= 0x7fff,
        0 <= j < s.front.len(),
        s.front[j] != s.back[j],
        run_end(s.front, s.back, j as nat) < s.front.len(),
    ensures
        exists|k: int| 0 <= k < s.frame().len() && writes_cell(#[trigger] s.frame()[k], j),
{
    let changes = changes_from(s.front, s.back, s.width, 0);
    lemma_changed_cell_in_changes(s.front, s.back, s.width, 0, j as nat);
    let k = choose|k: int| 0 <= k < changes.len() && writes_cell(#[trigger] changes[k], j);
    assert(s.frame() == seq![to_origin()] + changes + seq![to_origin()]);
    assert(s.frame()[k + 1] == changes[k]);
}

/// Rendering the same screen that is shown writes nothing: the frame only
/// moves the cursor to the origin, twice.
pub proof fn law_unchanged_screen_writes_nothing(s: Screens)
    requires
        s.front == s.back,
    ensures
        s.frame() == seq![to_origin(), to_origin()],
{
    lemma_no_changes(s.front, s.back, s.width, 0);
    assert(s.frame() =~= seq![to_origin(), to_origin()]);
}

/// Every write of a frame starts at a cell where the screen to show
/// differs from the screen shown before.
pub proof fn law_frame_writes_only_changed_cells(s: Screens)
    requires
        s.wf(),
    ensures
        forall|k: int|
            0 <= k < s.frame().len() ==> (#[trigger] s.frame()[k] matches ConsoleCommand::Write { start, .. }
                ==> 0 <= start < s.front.len() && s.front[start as int] != s.back[start as int]),
{
    let changes = changes_from(s.front, s.back, s.width, 0);
    lemma_writes_in_changes(s.front, s.back, s.width, 0);
    assert forall|k: int|
        0 <= k < s.frame().len() && (#[trigger] s.frame()[k] matches ConsoleCommand::Write {
            start,
            ..
        }) implies {
        let start = s.frame()[k]->start;
        0 <= start < s.front.len() && s.front[start as int] != s.back[start as int]
    } by {
        assert(s.frame() == seq![to_origin()] + changes + seq![to_origin()]);
        if k == 0 {
        } else if k <= changes.len() {
            assert(s.frame()[k] == changes[k - 1]);
        } else {
        }
    }
}

/// Presenting twice gives back the screens one started with, so two calls
/// of `Renderer::render` (which ensures `swapped`) leave the renderer as it
/// was.
pub proof fn law_swap_twice_restores(s: Screens)
    ensures
        s.swapped().swapped() == s,
{
}

/// Resizing a second time to the same size changes nothing.
pub proof fn law_resize_twice_is_resize_once(s: Screens, width: int, height: int)
    ensures
        s.resized(width, height).resized(width, height) == s.resized(width, height),
{
    lemma_screen_len_nonneg(width, height);
    let once = s.resized(width, height);
    assert(once.front.len() == screen_len(width, height));
    assert(once.back.len() == screen_len(width, height));
}

/// Starting a second frame at the same size, with nothing drawn in
/// between, gives the same screens as starting one.
pub proof fn law_update_twice_is_update_once(s: Screens, width: int, height: int)
    ensures
        s.updated(width, height).updated(width, height) == s.updated(width, height),
{
    lemma_screen_len_nonneg(width, height);
    let once = s.updated(width, height);
    assert(once.front.len() == screen_len(width, height));
    assert(once.back.len() == screen_len(width, height));
    assert(once.resized(width, height) == once);
    assert(once.with_back_filled(CHAR_EMPTY).back =~= once.back);
}

/// A character drawn inside the console is on the front screen, at its
/// cell, once the frame is rendered.
pub proof fn law_drawn_point_is_shown(s: Screens, pos: Vec2<i32>, ch: u8)
    requires
        s.wf(),
        s.contains(pos),
    ensures
        0 <= s.cell_index(pos) < s.front.len(),
        s.with_point(pos, ch).swapped().front[s.cell_index(pos)] == ch,
        s.with_point(pos, ch).swapped().wf(),
{
    lemma_row_major_index(s.width, s.height, pos.x as int, pos.y as int);
}

/// Starting a frame on a console whose size did not change keeps the
/// front screen and clears the back screen.
pub proof fn law_update_same_size_keeps_front(s: Screens)
    requires
        s.wf(),
    ensures
        s.updated(s.width, s.height).front == s.front,
        s.updated(s.width, s.height).back == Seq::new(s.back.len(), |i: int| CHAR_EMPTY),
{
}

/// Every frame starts on well-formed screens with a blank back screen of
/// the console's size.
pub proof fn law_update_blanks_back(s: Screens, width: int, height: int)
    requires
        s.wf(),
        screen_len(width, height) <= usize::MAX,
    ensures
        s.updated(width, height).wf(),
        s.updated(width, height).width == width,
        s.updated(width, height).height == height,
        forall|i: int|
            0 <= i < screen_len(width, height) ==> #[trigger] s.updated(width, height).back[i]
                == CHAR_EMPTY,
{
    lemma_screen_len_nonneg(width, height);
}

/// A change of the number of cells fills the front screen with
/// `FORCE_PAINT_CHAR`, so that the next frame rewrites every cell drawn
/// with another byte.
pub proof fn law_resize_forces_repaint(s: Screens, width: int, height: int)
    requires
        s.wf(),
        screen_len(width, height) != s.front.len(),
    ensures
        forall|i: int|
            0 <= i < screen_len(width, height) ==> #[trigger] s.updated(width, height).front[i]
                == FORCE_PAINT_CHAR,
{
    lemma_screen_len_nonneg(width, height);
}

proof fn lemma_screen_len_nonneg(w: int, h: int)
    ensures
        screen_len(w, h) >= 0,
{
    if w >= 0 && h >= 0 {
        assert(w * h >= 0) by (nonlinear_arith)
            requires
                w >= 0,
                h >= 0,
        ;
    }
}

} // verus!
