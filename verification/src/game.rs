//! The executable game state and the operations that drive it: fresh
//! and restarted games, the per-tick step, input buffering, and food
//! placement.

use vstd::prelude::*;
use std::collections::VecDeque;
use crate::GRID_SIZE;
use crate::body::{BodyPart, Bend, Direction, bend_for, bend_of, can_move, in_grid, step_pos};
use crate::model::{
    GameView, body_cells_in_grid, initial_body, lemma_post_body_sound, lemma_same_cells_transfer,
    lemma_step_preserves_wf, lemma_turned_positions, occupied_in, positions_distinct_in,
    valid_start,
};
use crate::rng::random_coord;

verus! {

/// The whole state of one game. The body is kept head first; the food
/// cell never lies on the body.
pub struct Snake {
    body: VecDeque<BodyPart>,
    apple: (u32, u32),
    direction: Direction,
    directions_queue: VecDeque<Direction>,
    game_over: bool,
    score: u32,
    growing: bool,
}

impl View for Snake {
    type V = GameView;

    closed spec fn view(&self) -> GameView {
        GameView {
            body: self.body@,
            apple: self.apple,
            direction: self.direction,
            queue: self.directions_queue@,
            game_over: self.game_over,
            score: self.score,
            growing: self.growing,
        }
    }
}

/// Whether some segment of `body` stands on `(x, y)`.
fn cell_occupied(body: &VecDeque<BodyPart>, x: u32, y: u32) -> (r: bool)
    ensures
        r == occupied_in(body@, (x, y)),
{
    let mut i: usize = 0;
    while i < body.len()
        invariant
            i <= body@.len(),
            forall|j: int| 0 <= j < i ==> ((#[trigger] body@[j]).x, body@[j].y) != (x, y),
        decreases body@.len() - i,
    {
        let p = body[i];
        if p.x == x && p.y == y {
            assert(occupied_in(body@, (x, y)));
            return true;
        }
        i += 1;
    }
    false
}

/// How many random draws food placement makes before it falls back to
/// scanning the grid for a free cell.
const FOOD_SAMPLE_ATTEMPTS: u32 = 1000;

/// The first free grid cell in row-major order. Some cell must be
/// free, or the scan would have nothing to return.
fn scan_free_cell(body: &VecDeque<BodyPart>) -> (r: (u32, u32))
    requires
        exists|c: (u32, u32)| in_grid(c.0, c.1) && !occupied_in(body@, c),
    ensures
        in_grid(r.0, r.1),
        !occupied_in(body@, r),
{
    let mut y: u32 = 0;
    while y < GRID_SIZE
        invariant
            y <= GRID_SIZE,
            forall|cx: u32, cy: u32|
                cx < GRID_SIZE && cy < y ==> #[trigger] occupied_in(body@, (cx, cy)),
        decreases GRID_SIZE - y,
    {
        let mut x: u32 = 0;
        while x < GRID_SIZE
            invariant
                x <= GRID_SIZE,
                y < GRID_SIZE,
                forall|cx: u32, cy: u32|
                    cx < GRID_SIZE && cy < y ==> #[trigger] occupied_in(body@, (cx, cy)),
                forall|cx: u32| cx < x ==> #[trigger] occupied_in(body@, (cx, y)),
            decreases GRID_SIZE - x,
        {
            if !cell_occupied(body, x, y) {
                return (x, y);
            }
            x += 1;
        }
        y += 1;
    }
    proof {
        let c = choose|c: (u32, u32)| in_grid(c.0, c.1) && !occupied_in(body@, c);
        assert(occupied_in(body@, (c.0, c.1)));
        assert((c.0, c.1) == c);
    }
    vstd::pervasive::unreached()
}

/// A grid cell that no segment of `body` occupies: drawn uniformly by
/// rejection sampling, with a row-major scan as a terminating fallback
/// should every draw land on the body.
fn pick_free_cell(body: &VecDeque<BodyPart>) -> (r: (u32, u32))
    requires
        exists|c: (u32, u32)| in_grid(c.0, c.1) && !occupied_in(body@, c),
    ensures
        in_grid(r.0, r.1),
        !occupied_in(body@, r),
{
    let mut attempts: u32 = 0;
    while attempts < FOOD_SAMPLE_ATTEMPTS
        invariant
            exists|c: (u32, u32)| in_grid(c.0, c.1) && !occupied_in(body@, c),
        decreases FOOD_SAMPLE_ATTEMPTS - attempts,
    {
        let x = random_coord(GRID_SIZE);
        let y = random_coord(GRID_SIZE);
        if !cell_occupied(body, x, y) {
            return (x, y);
        }
        attempts += 1;
    }
    scan_free_cell(body)
}

impl Snake {
    /// Places the food on a freshly drawn cell that the body does not
    /// occupy; nothing else changes.
    pub(crate) fn generate_fruit(&mut self)
        requires
            exists|c: (u32, u32)| in_grid(c.0, c.1) && !occupied_in(old(self)@.body, c),
        ensures
            final(self)@.body == old(self)@.body,
            final(self)@.direction == old(self)@.direction,
            final(self)@.queue == old(self)@.queue,
            final(self)@.game_over == old(self)@.game_over,
            final(self)@.score == old(self)@.score,
            final(self)@.growing == old(self)@.growing,
            in_grid(final(self)@.apple.0, final(self)@.apple.1),
            !occupied_in(old(self)@.body, final(self)@.apple),
    {
        let cell = pick_free_cell(&self.body);
        self.apple = cell;
    }

    /// A fresh game: a three-segment body in the middle column heading
    /// up, an empty input queue, score zero, and food on a freshly
    /// drawn free cell. Restarting replaces the state with this value.
    pub fn new() -> (s: Snake)
        ensures
            s@.wf(),
            s@.body == initial_body(),
            s@.direction == Direction::Up,
            s@.queue == Seq::<Direction>::empty(),
            !s@.game_over,
            s@.score == 0,
            !s@.growing,
    {
        let middle: u32 = GRID_SIZE / 2;
        let mut s = Snake {
            body: VecDeque::new(),
            apple: (0, 0),
            direction: Direction::Up,
            directions_queue: VecDeque::new(),
            game_over: false,
            score: 0,
            growing: false,
        };
        s.body.push_front(BodyPart::new(middle, middle, Direction::Up));
        s.body.push_front(BodyPart::new(middle, middle - 1, Direction::Up));
        s.body.push_front(BodyPart::new(middle, middle - 2, Direction::Up));
        proof {
            assert(s@.body =~= initial_body());
            assert(!occupied_in(s@.body, (0u32, 0u32)));
            assert(in_grid(0u32, 0u32));
        }
        s.generate_fruit();
        proof {
            assert(positions_distinct_in(s@.body));
            assert(body_cells_in_grid(s@.body));
        }
        s
    }

    /// Rewrites the stored head so it records the committed direction
    /// and the bend the turn produces, and returns the segment that
    /// becomes the new head — or `None`, marking the game lost, when
    /// the move would leave the grid.
    pub fn get_new_head(&mut self) -> (r: Option<BodyPart>)
        requires
            old(self)@.body.len() >= 1,
            body_cells_in_grid(old(self)@.body),
        ensures
            final(self)@.apple == old(self)@.apple,
            final(self)@.direction == old(self)@.direction,
            final(self)@.queue == old(self)@.queue,
            final(self)@.score == old(self)@.score,
            final(self)@.growing == old(self)@.growing,
            ({
                let hd = old(self)@.head();
                let d = old(self)@.direction;
                if can_move(hd.x, hd.y, d) {
                    &&& r == Some(
                        (BodyPart {
                            x: step_pos(hd.x, hd.y, d).0,
                            y: step_pos(hd.x, hd.y, d).1,
                            direction: d,
                            bend: Bend::Straight,
                        }),
                    )
                    &&& final(self)@.body == old(self)@.body.update(
                        0,
                        (BodyPart { direction: d, bend: bend_of(hd.direction, d), ..hd }),
                    )
                    &&& final(self)@.game_over == old(self)@.game_over
                } else {
                    &&& r is None
                    &&& final(self)@.body == old(self)@.body
                    &&& final(self)@.game_over
                }
            }),
    {
        let head = self.body[0];
        proof {
            assert(in_grid(head.x, head.y));
        }
        let target: Option<(u32, u32)> = match self.direction {
            Direction::Left => if head.x == 0 {
                None
            } else {
                Some((head.x - 1, head.y))
            },
            Direction::Right => if head.x + 1 == GRID_SIZE {
                None
            } else {
                Some((head.x + 1, head.y))
            },
            Direction::Up => if head.y == 0 {
                None
            } else {
                Some((head.x, head.y - 1))
            },
            Direction::Down => if head.y + 1 == GRID_SIZE {
                None
            } else {
                Some((head.x, head.y + 1))
            },
        };
        match target {
            None => {
                self.game_over = true;
                None
            },
            Some((x, y)) => {
                let d = self.direction;
                let turned = BodyPart {
                    x: head.x,
                    y: head.y,
                    direction: d,
                    bend: bend_for(head.direction, d),
                };
                self.body.pop_front();
                self.body.push_front(turned);
                proof {
                    assert(self.body@ =~= old(self)@.body.update(0, turned));
                }
                Some(BodyPart::new(x, y, d))
            },
        }
    }

    /// One simulation tick: commit the next buffered direction, move
    /// the head one cell, and resolve walls, collisions, food and the
    /// deferred growth that eating leaves behind.
    pub fn step(&mut self)
        requires
            old(self)@.wf(),
            !old(self)@.game_over,
            old(self)@.score < u32::MAX,
        ensures
            final(self)@.wf(),
            exists|f: (u32, u32)|
                old(self)@.food_ok(f) && final(self)@ == #[trigger] old(self)@.step_result(f),
            final(self)@.direction == old(self)@.effective_direction(),
            final(self)@.queue == old(self)@.after_queue_pop(),
            final(self)@.body.len() >= old(self)@.body.len(),
            old(self)@.hits_wall() ==> (final(self)@.game_over
                && final(self)@.score == old(self)@.score
                && final(self)@.body == old(self)@.body),
            old(self)@.collides() ==> (final(self)@.game_over
                && final(self)@.score == old(self)@.score
                && final(self)@.body.len() == old(self)@.body.len()),
            (!old(self)@.hits_wall() && !old(self)@.collides()) ==> !final(self)@.game_over,
            old(self)@.eats() ==> (final(self)@.score == old(self)@.score + 1
                && final(self)@.body.len() == old(self)@.body.len()
                && final(self)@.growing),
            (!old(self)@.hits_wall() && !old(self)@.collides() && !old(self)@.eats())
                ==> final(self)@.score == old(self)@.score,
            (!old(self)@.hits_wall() && !old(self)@.collides() && !old(self)@.eats()
                && old(self)@.growing) ==> (final(self)@.body.len() == old(self)@.body.len() + 1
                && !final(self)@.growing),
            (!old(self)@.hits_wall() && !old(self)@.collides() && !old(self)@.eats()
                && !old(self)@.growing) ==> final(self)@.body.len() == old(self)@.body.len(),
    {
        let ghost pre = self@;
        if self.directions_queue.len() > 0 {
            let next = self.directions_queue.pop_front();
            if let Some(nd) = next {
                self.direction = nd;
            }
        }
        proof {
            assert(self@.direction == pre.effective_direction());
            assert(self@.queue =~= pre.after_queue_pop());
            assert(self@.body == pre.body);
        }
        let new_head = match self.get_new_head() {
            None => {
                self.game_over = true;
                proof {
                    assert(pre.hits_wall());
                    assert(pre.food_ok(pre.apple));
                    assert(self@ =~= pre.step_result(pre.apple));
                    lemma_step_preserves_wf(pre, pre.apple);
                }
                return;
            },
            Some(h) => h,
        };
        proof {
            assert(!pre.hits_wall());
            assert((new_head.x, new_head.y) == pre.target());
            assert(self@.body == pre.body_with_turned_head());
            lemma_turned_positions(pre);
            lemma_same_cells_transfer(pre.body, pre.body_with_turned_head(), pre.target());
        }
        let hits = cell_occupied(&self.body, new_head.x, new_head.y);
        let tail = self.body[self.body.len() - 1];
        let tail_vacates_target = tail.x == new_head.x && tail.y == new_head.y && !self.growing;
        proof {
            assert((tail.x, tail.y) == pre.tail_pos());
            assert(hits == pre.occupies(pre.target()));
        }
        if hits && !tail_vacates_target {
            self.game_over = true;
            proof {
                assert(pre.collides());
                assert(pre.food_ok(pre.apple));
                assert(self@ =~= pre.step_result(pre.apple));
                lemma_step_preserves_wf(pre, pre.apple);
            }
            return;
        }
        proof {
            assert(!pre.collides());
            lemma_post_body_sound(pre);
        }
        let ate = new_head.x == self.apple.0 && new_head.y == self.apple.1;
        if ate {
            proof {
                assert(pre.eats());
            }
            self.score = self.score + 1;
            self.growing = true;
            let _ = self.body.pop_back();
            self.body.push_front(new_head);
            proof {
                assert(self@.body =~= pre.post_body());
                // The vacated tail cell is free, so a food cell exists.
                assert(in_grid(pre.tail_pos().0, pre.tail_pos().1)) by {
                    let t = pre.body.len() - 1;
                    assert(in_grid(pre.body[t].x, pre.body[t].y));
                };
                assert(pre.target() != pre.tail_pos());
                assert(!occupied_in(self@.body, pre.tail_pos()));
            }
            self.generate_fruit();
            proof {
                let f = self@.apple;
                assert(pre.food_ok(f));
                assert(self@ =~= pre.step_result(f));
                lemma_step_preserves_wf(pre, f);
            }
        } else if !self.growing {
            let _ = self.body.pop_back();
            self.body.push_front(new_head);
            proof {
                assert(!pre.eats() && pre.pops_tail());
                assert(pre.food_ok(pre.apple));
                assert(self@.body =~= pre.post_body());
                assert(self@ =~= pre.step_result(pre.apple));
                lemma_step_preserves_wf(pre, pre.apple);
            }
        } else {
            self.growing = false;
            self.body.push_front(new_head);
            proof {
                assert(!pre.eats() && !pre.pops_tail());
                assert(pre.food_ok(pre.apple));
                assert(self@.body =~= pre.post_body());
                assert(self@ =~= pre.step_result(pre.apple));
                lemma_step_preserves_wf(pre, pre.apple);
            }
        }
    }

    /// Buffers a requested direction change. The request is dropped
    /// when it repeats or reverses the heading it would follow, or
    /// when two changes are already buffered; otherwise it is queued.
    pub fn queue_direction(&mut self, dir: Direction)
        requires
            old(self)@.wf(),
        ensures
            final(self)@.wf(),
            final(self)@.body == old(self)@.body,
            final(self)@.apple == old(self)@.apple,
            final(self)@.direction == old(self)@.direction,
            final(self)@.game_over == old(self)@.game_over,
            final(self)@.score == old(self)@.score,
            final(self)@.growing == old(self)@.growing,
            final(self)@.queue == if old(self)@.accepts(dir) {
                old(self)@.queue.push(dir)
            } else {
                old(self)@.queue
            },
    {
        let last_dir = if self.directions_queue.len() > 0 {
            self.directions_queue[self.directions_queue.len() - 1]
        } else {
            self.direction
        };
        let is_opp = last_dir.is_opposite(dir);
        if !is_opp && last_dir != dir && self.directions_queue.len() < 2 {
            self.directions_queue.push_back(dir);
        }
    }

    /// A game assembled from an explicit body (head first), food cell
    /// and committed direction, with an empty queue, score zero and no
    /// pending growth — or `None` when the pieces do not describe a
    /// state a game could hold.
    pub fn from_parts(parts: &Vec<BodyPart>, apple: (u32, u32), direction: Direction) -> (r:
        Option<Snake>)
        ensures
            r is Some <==> valid_start(parts@, apple),
            match r {
                Some(s) => {
                    &&& s@.wf()
                    &&& s@.body == parts@
                    &&& s@.apple == apple
                    &&& s@.direction == direction
                    &&& s@.queue == Seq::<Direction>::empty()
                    &&& !s@.game_over
                    &&& s@.score == 0
                    &&& !s@.growing
                },
                None => true,
            },
    {
        if parts.len() == 0 {
            return None;
        }
        let mut i: usize = 0;
        while i < parts.len()
            invariant
                i <= parts@.len(),
                forall|k: int| 0 <= k < i ==> in_grid((#[trigger] parts@[k]).x, parts@[k].y),
            decreases parts@.len() - i,
        {
            let p = parts[i];
            if !(p.x < GRID_SIZE && p.y < GRID_SIZE) {
                proof {
                    assert(!in_grid(parts@[i as int].x, parts@[i as int].y));
                }
                return None;
            }
            i += 1;
        }
        let mut i: usize = 0;
        while i < parts.len()
            invariant
                i <= parts@.len(),
                forall|a: int, b: int|
                    0 <= a < i && a < b < parts@.len() ==> ((#[trigger] parts@[a]).x, parts@[a].y)
                        != ((#[trigger] parts@[b]).x, parts@[b].y),
            decreases parts@.len() - i,
        {
            let pi = parts[i];
            let mut j: usize = i + 1;
            while j < parts.len()
                invariant
                    i < j <= parts@.len(),
                    i < parts@.len(),
                    pi == parts@[i as int],
                    forall|a: int, b: int|
                        0 <= a < i && a < b < parts@.len() ==> ((#[trigger] parts@[a]).x, parts@[a].y)
                            != ((#[trigger] parts@[b]).x, parts@[b].y),
                    forall|b: int|
                        i < b < j ==> ((#[trigger] parts@[b]).x, parts@[b].y) != (
                        parts@[i as int].x,
                        parts@[i as int].y,
                        ),
                decreases parts@.len() - j,
            {
                let pj = parts[j];
                if pi.x == pj.x && pi.y == pj.y {
                    proof {
                        assert(!positions_distinct_in(parts@));
                    }
                    return None;
                }
                j += 1;
            }
            i += 1;
        }
        if !(apple.0 < GRID_SIZE && apple.1 < GRID_SIZE) {
            return None;
        }
        let mut body: VecDeque<BodyPart> = VecDeque::new();
        let mut i: usize = 0;
        while i < parts.len()
            invariant
                i <= parts@.len(),
                body@ == parts@.subrange(0, i as int),
            decreases parts@.len() - i,
        {
            body.push_back(parts[i]);
            proof {
                assert(body@ =~= parts@.subrange(0, i + 1));
            }
            i += 1;
        }
        proof {
            assert(body@ =~= parts@);
        }
        if cell_occupied(&body, apple.0, apple.1) {
            return None;
        }
        Some(
            Snake {
                body,
                apple,
                direction,
                directions_queue: VecDeque::new(),
                game_over: false,
                score: 0,
                growing: false,
            },
        )
    }

    /// The current score: how many pieces of food have been eaten.
    pub fn score(&self) -> (r: u32)
        ensures
            r == self@.score,
    {
        self.score
    }

    /// Whether the game has been lost.
    pub fn is_over(&self) -> (r: bool)
        ensures
            r == self@.game_over,
    {
        self.game_over
    }

    /// Whether a growth from eaten food is still pending.
    pub fn is_growing(&self) -> (r: bool)
        ensures
            r == self@.growing,
    {
        self.growing
    }

    /// The committed movement direction.
    pub fn current_direction(&self) -> (r: Direction)
        ensures
            r == self@.direction,
    {
        self.direction
    }

    /// The cell the food currently occupies.
    pub fn apple(&self) -> (r: (u32, u32))
        ensures
            r == self@.apple,
    {
        self.apple
    }

    /// How many segments the body has.
    pub fn body_len(&self) -> (r: usize)
        ensures
            r == self@.body.len(),
    {
        self.body.len()
    }

    /// The segment at position `i`, counted from the head.
    pub fn part_at(&self, i: usize) -> (r: BodyPart)
        requires
            i < self@.body.len(),
        ensures
            r == self@.body[i as int],
    {
        self.body[i]
    }

    /// How many direction changes are buffered.
    pub fn queued_len(&self) -> (r: usize)
        ensures
            r == self@.queue.len(),
    {
        self.directions_queue.len()
    }

    /// Whether some body segment stands on `(x, y)`.
    pub fn has_segment_at(&self, x: u32, y: u32) -> (r: bool)
        ensures
            r == self@.occupies((x, y)),
    {
        cell_occupied(&self.body, x, y)
    }
}

impl Default for Snake {
    /// A fresh game, exactly as `Snake::new` builds it.
    fn default() -> (s: Snake)
        ensures
            s@.wf(),
            s@.body == initial_body(),
            s@.direction == Direction::Up,
            s@.queue == Seq::<Direction>::empty(),
            !s@.game_over,
            s@.score == 0,
            !s@.growing,
    {
        Snake::new()
    }
}

} // verus!
