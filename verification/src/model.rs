//! The mathematical model of the game: an abstract view of the state
//! and a functional description of one simulation tick, together with
//! the laws the simulation obeys.

use vstd::prelude::*;
use crate::GRID_SIZE;
use crate::body::{BodyPart, Bend, Direction, bend_of, can_move, in_grid, opposite, step_pos};

verus! {

/// Whether some segment of `body` occupies `cell`.
pub open spec fn occupied_in(body: Seq<BodyPart>, cell: (u32, u32)) -> bool {
    exists|i: int| 0 <= i < body.len() && ((#[trigger] body[i]).x, body[i].y) == cell
}

/// No two segments of `body` share a cell.
pub open spec fn positions_distinct_in(body: Seq<BodyPart>) -> bool {
    forall|i: int, j: int|
        0 <= i < j < body.len() ==> ((#[trigger] body[i]).x, body[i].y) != (
        (#[trigger] body[j]).x,
        body[j].y,
        )
}

/// Every segment of `body` lies on the grid.
pub open spec fn body_cells_in_grid(body: Seq<BodyPart>) -> bool {
    forall|i: int| 0 <= i < body.len() ==> in_grid((#[trigger] body[i]).x, body[i].y)
}

/// The abstract value of a game state. The body is ordered head first;
/// the last segment is the tail.
#[verifier::ext_equal]
pub struct GameView {
    pub body: Seq<BodyPart>,
    pub apple: (u32, u32),
    pub direction: Direction,
    pub queue: Seq<Direction>,
    pub game_over: bool,
    pub score: u32,
    pub growing: bool,
}

impl GameView {
    /// The cell occupied by segment `i`.
    pub open spec fn seg_pos(self, i: int) -> (u32, u32) {
        (self.body[i].x, self.body[i].y)
    }

    /// Whether some body segment occupies `cell`.
    pub open spec fn occupies(self, cell: (u32, u32)) -> bool {
        occupied_in(self.body, cell)
    }

    /// No two segments share a cell.
    pub open spec fn positions_distinct(self) -> bool {
        positions_distinct_in(self.body)
    }

    /// Every segment lies on the grid.
    pub open spec fn body_in_grid(self) -> bool {
        body_cells_in_grid(self.body)
    }

    /// The buffered directions are at most two, and no queued heading
    /// repeats or reverses the heading it would follow.
    pub open spec fn queue_ok(self) -> bool {
        &&& self.queue.len() <= 2
        &&& (self.queue.len() >= 1 ==> self.queue[0] != self.direction && !opposite(
            self.direction,
            self.queue[0],
        ))
        &&& (self.queue.len() == 2 ==> self.queue[1] != self.queue[0] && !opposite(
            self.queue[0],
            self.queue[1],
        ))
    }

    /// The invariant every reachable state satisfies: a non-empty body of
    /// distinct on-grid cells, food on the grid but off the body, and a
    /// well-formed input queue.
    pub open spec fn wf(self) -> bool {
        &&& self.body.len() >= 1
        &&& self.body_in_grid()
        &&& self.positions_distinct()
        &&& in_grid(self.apple.0, self.apple.1)
        &&& !self.occupies(self.apple)
        &&& self.queue_ok()
    }

    /// The heading a newly requested direction is measured against:
    /// the most recently buffered entry, or the committed direction
    /// when nothing is buffered.
    pub open spec fn last_queued_or_current(self) -> Direction {
        if self.queue.len() > 0 {
            self.queue.last()
        } else {
            self.direction
        }
    }

    /// Whether a request to head `dir` is buffered rather than dropped:
    /// it must not repeat or reverse the heading it would follow, and
    /// the queue must have room.
    pub open spec fn accepts(self, dir: Direction) -> bool {
        &&& !opposite(self.last_queued_or_current(), dir)
        &&& dir != self.last_queued_or_current()
        &&& self.queue.len() < 2
    }

    /// The heading the next tick moves in: the first buffered entry if
    /// any, else the committed direction.
    pub open spec fn effective_direction(self) -> Direction {
        if self.queue.len() > 0 {
            self.queue[0]
        } else {
            self.direction
        }
    }

    /// The queue once the next tick has consumed its front entry.
    pub open spec fn after_queue_pop(self) -> Seq<Direction> {
        if self.queue.len() > 0 {
            self.queue.drop_first()
        } else {
            self.queue
        }
    }

    /// The head segment.
    pub open spec fn head(self) -> BodyPart {
        self.body[0]
    }

    /// The tail segment's cell.
    pub open spec fn tail_pos(self) -> (u32, u32) {
        self.seg_pos(self.body.len() - 1)
    }

    /// Whether the next tick would leave the grid.
    pub open spec fn hits_wall(self) -> bool {
        !can_move(self.head().x, self.head().y, self.effective_direction())
    }

    /// The cell the head moves into on the next tick.
    pub open spec fn target(self) -> (u32, u32)
        recommends
            !self.hits_wall(),
    {
        step_pos(self.head().x, self.head().y, self.effective_direction())
    }

    /// Whether the next tick runs the head into a body segment that is
    /// not vacating its cell this same tick. The tail's cell is exempt
    /// exactly when the tail will move: when no growth is pending.
    pub open spec fn collides(self) -> bool {
        &&& !self.hits_wall()
        &&& self.occupies(self.target())
        &&& !(self.target() == self.tail_pos() && !self.growing)
    }

    /// Whether the next tick moves the head onto the food.
    pub open spec fn eats(self) -> bool {
        &&& !self.hits_wall()
        &&& !self.collides()
        &&& self.target() == self.apple
    }

    /// The body once the current head has recorded the turn: its heading
    /// becomes the tick's heading and its bend kind follows the
    /// heading-transition table.
    pub open spec fn body_with_turned_head(self) -> Seq<BodyPart> {
        let d = self.effective_direction();
        let h = self.head();
        self.body.update(0, BodyPart { direction: d, bend: bend_of(h.direction, d), ..h })
    }

    /// Whether the next tick removes the tail: always on eating (growth
    /// settles one tick later), otherwise whenever no growth is pending.
    pub open spec fn pops_tail(self) -> bool {
        self.eats() || !self.growing
    }

    /// The body after a surviving tick: the new head in front, the tail
    /// kept only when a pending growth cancels its removal.
    pub open spec fn post_body(self) -> Seq<BodyPart> {
        let d = self.effective_direction();
        let nh = BodyPart {
            x: self.target().0,
            y: self.target().1,
            direction: d,
            bend: Bend::Straight,
        };
        let turned = self.body_with_turned_head();
        if self.pops_tail() {
            seq![nh] + turned.drop_last()
        } else {
            seq![nh] + turned
        }
    }

    /// Whether `f` is an acceptable food cell for the state one tick
    /// later: on an eating tick, any grid cell off the new body; on any
    /// other tick the food stays where it was.
    pub open spec fn food_ok(self, f: (u32, u32)) -> bool {
        if self.eats() {
            in_grid(f.0, f.1) && !occupied_in(self.post_body(), f)
        } else {
            f == self.apple
        }
    }

    /// The state one tick later, given the food cell `f` drawn when the
    /// tick eats (`f` is the unchanged food cell otherwise).
    pub open spec fn step_result(self, f: (u32, u32)) -> GameView {
        let d = self.effective_direction();
        let q = self.after_queue_pop();
        if self.hits_wall() {
            GameView { direction: d, queue: q, game_over: true, ..self }
        } else if self.collides() {
            GameView {
                direction: d,
                queue: q,
                body: self.body_with_turned_head(),
                game_over: true,
                ..self
            }
        } else if self.eats() {
            GameView {
                direction: d,
                queue: q,
                body: self.post_body(),
                apple: f,
                score: (self.score + 1) as u32,
                growing: true,
                ..self
            }
        } else if !self.growing {
            GameView { direction: d, queue: q, body: self.post_body(), ..self }
        } else {
            GameView { direction: d, queue: q, body: self.post_body(), growing: false, ..self }
        }
    }
}

/// Whether a body and a food cell describe a state a game could hold:
/// a non-empty body of distinct on-grid cells and food on the grid but
/// off the body.
pub open spec fn valid_start(body: Seq<BodyPart>, apple: (u32, u32)) -> bool {
    &&& body.len() >= 1
    &&& body_cells_in_grid(body)
    &&& positions_distinct_in(body)
    &&& in_grid(apple.0, apple.1)
    &&& !occupied_in(body, apple)
}

/// The three-segment column a fresh game starts with: the head two
/// cells above the grid's centre cell, all segments heading up.
pub open spec fn initial_body() -> Seq<BodyPart> {
    let mid = (GRID_SIZE / 2) as u32;
    seq![
        BodyPart { x: mid, y: (mid - 2) as u32, direction: Direction::Up, bend: Bend::Straight },
        BodyPart { x: mid, y: (mid - 1) as u32, direction: Direction::Up, bend: Bend::Straight },
        BodyPart { x: mid, y: mid, direction: Direction::Up, bend: Bend::Straight },
    ]
}

/// The positions of the body are untouched when the head records a
/// turn: only its heading and bend kind change.
pub proof fn lemma_turned_positions(v: GameView)
    requires
        v.body.len() >= 1,
    ensures
        v.body_with_turned_head().len() == v.body.len(),
        forall|i: int|
            0 <= i < v.body.len() ==> ((#[trigger] v.body_with_turned_head()[i]).x == v.body[i].x
                && v.body_with_turned_head()[i].y == v.body[i].y),
{
}

/// Two bodies whose segments stand on the same cells occupy the same
/// cells, and share distinctness and staying on the grid.
pub proof fn lemma_same_cells_transfer(a: Seq<BodyPart>, b: Seq<BodyPart>, cell: (u32, u32))
    requires
        a.len() == b.len(),
        forall|i: int| 0 <= i < a.len() ==> ((#[trigger] b[i]).x == a[i].x && b[i].y == a[i].y),
    ensures
        occupied_in(a, cell) == occupied_in(b, cell),
        positions_distinct_in(a) ==> positions_distinct_in(b),
        body_cells_in_grid(a) ==> body_cells_in_grid(b),
{
    if occupied_in(a, cell) {
        let i = choose|i: int| 0 <= i < a.len() && ((#[trigger] a[i]).x, a[i].y) == cell;
        assert(((b[i]).x, b[i].y) == cell);
    }
    if occupied_in(b, cell) {
        let i = choose|i: int| 0 <= i < b.len() && ((#[trigger] b[i]).x, b[i].y) == cell;
        assert(((a[i]).x, a[i].y) == cell);
    }
    if positions_distinct_in(a) {
        assert forall|i: int, j: int|
            0 <= i < j < b.len() implies ((#[trigger] b[i]).x, b[i].y) != (
            (#[trigger] b[j]).x,
            b[j].y,
        ) by {
            assert((a[i].x, a[i].y) != (a[j].x, a[j].y));
        }
    }
    if body_cells_in_grid(a) {
        assert forall|i: int| 0 <= i < b.len() implies in_grid((#[trigger] b[i]).x, b[i].y) by {
            assert(in_grid(a[i].x, a[i].y));
        }
    }
}

/// On a surviving tick the new body is sound: its cells stay on the
/// grid and pairwise distinct, and any cell the old body left free and
/// the head does not enter stays free.
pub proof fn lemma_post_body_sound(pre: GameView)
    requires
        pre.wf(),
        !pre.hits_wall(),
        !pre.collides(),
    ensures
        pre.post_body().len() == if pre.pops_tail() {
            pre.body.len() as int
        } else {
            pre.body.len() + 1 as int
        },
        body_cells_in_grid(pre.post_body()),
        positions_distinct_in(pre.post_body()),
        forall|c: (u32, u32)|
            !occupied_in(pre.body, c) && c != pre.target() ==> !#[trigger] occupied_in(
                pre.post_body(),
                c,
            ),
        pre.pops_tail() && pre.target() != pre.tail_pos() ==> !occupied_in(
            pre.post_body(),
            pre.tail_pos(),
        ),
{
    let d = pre.effective_direction();
    lemma_turned_positions(pre);
    let turned = pre.body_with_turned_head();
    let tgt = pre.target();
    let nh = BodyPart { x: tgt.0, y: tgt.1, direction: d, bend: Bend::Straight };
    let pb = pre.post_body();
    assert(in_grid(nh.x, nh.y)) by {
        assert(in_grid(pre.body[0].x, pre.body[0].y));
    };
    // Where each post-body cell comes from.
    assert(pb[0] == nh);
    assert forall|j: int|
        1 <= j < pb.len() implies ((#[trigger] pb[j]).x == pre.body[j - 1].x && pb[j].y
        == pre.body[j - 1].y) by {
        assert(pb[j] == turned[j - 1]);
    };
    assert(body_cells_in_grid(pb)) by {
        assert forall|i: int| 0 <= i < pb.len() implies in_grid((#[trigger] pb[i]).x, pb[i].y) by {
            if i >= 1 {
                assert(in_grid(pre.body[i - 1].x, pre.body[i - 1].y));
            }
        }
    };
    // The target cell meets no segment that survives behind the head.
    assert forall|j: int| 1 <= j < pb.len() implies ((#[trigger] pb[j]).x, pb[j].y) != tgt by {
        if pre.occupies(tgt) {
            // Only a vacating tail may stand on the target, and it is
            // dropped from the new body.
            assert(tgt == pre.tail_pos() && !pre.growing);
            assert(pre.pops_tail());
            assert(pb.len() == pre.body.len());
            let t = pre.body.len() - 1;
            assert((pre.body[j - 1].x, pre.body[j - 1].y) != (pre.body[t].x, pre.body[t].y));
        } else {
            if (pre.body[j - 1].x, pre.body[j - 1].y) == tgt {
                assert(occupied_in(pre.body, tgt));
            }
        }
    };
    assert(positions_distinct_in(pb)) by {
        assert forall|i: int, j: int|
            0 <= i < j < pb.len() implies ((#[trigger] pb[i]).x, pb[i].y) != (
            (#[trigger] pb[j]).x,
            pb[j].y,
        ) by {
            if i == 0 {
                assert((pb[0].x, pb[0].y) == tgt);
            } else {
                assert((pre.body[i - 1].x, pre.body[i - 1].y) != (
                pre.body[j - 1].x,
                pre.body[j - 1].y,
                ));
            }
        }
    };
    assert forall|c: (u32, u32)|
        !occupied_in(pre.body, c) && c != tgt implies !#[trigger] occupied_in(pb, c) by {
        if occupied_in(pb, c) {
            let j = choose|j: int| 0 <= j < pb.len() && ((#[trigger] pb[j]).x, pb[j].y) == c;
            if j == 0 {
                assert(c == tgt);
            } else {
                assert((pre.body[j - 1].x, pre.body[j - 1].y) == c);
                assert(occupied_in(pre.body, c));
            }
        }
    };
    if pre.pops_tail() && tgt != pre.tail_pos() {
        // The tail vacates its cell: no surviving segment stands there.
        let tp = pre.tail_pos();
        let t = pre.body.len() - 1;
        if occupied_in(pb, tp) {
            let j = choose|j: int| 0 <= j < pb.len() && ((#[trigger] pb[j]).x, pb[j].y) == tp;
            if j >= 1 {
                assert((pre.body[j - 1].x, pre.body[j - 1].y) != (pre.body[t].x, pre.body[t].y));
            }
        }
    }
}

/// The queue shape survives the pop a tick begins with.
proof fn lemma_popped_queue_ok(pre: GameView, post: GameView)
    requires
        pre.queue_ok(),
        post.direction == pre.effective_direction(),
        post.queue == pre.after_queue_pop(),
    ensures
        post.queue_ok(),
{
    if pre.queue.len() > 0 {
        assert(post.queue == pre.queue.drop_first());
        if post.queue.len() >= 1 {
            assert(post.queue[0] == pre.queue[1]);
        }
    }
}

/// A tick taken from any well-formed live state, with any acceptable
/// food draw, lands in a well-formed state again: the body cells stay
/// pairwise distinct and on the grid, the food stays off the body, and
/// the input queue keeps its bound and its no-repeat, no-reverse shape.
pub proof fn lemma_step_preserves_wf(pre: GameView, f: (u32, u32))
    requires
        pre.wf(),
        !pre.game_over,
        pre.food_ok(f),
    ensures
        pre.step_result(f).wf(),
{
    let post = pre.step_result(f);
    lemma_popped_queue_ok(pre, post);
    if pre.hits_wall() {
        assert(post.body == pre.body);
        assert(post.wf());
    } else if pre.collides() {
        lemma_turned_positions(pre);
        let turned = pre.body_with_turned_head();
        assert(post.body == turned);
        lemma_same_cells_transfer(pre.body, turned, pre.apple);
        assert(post.wf());
    } else {
        lemma_post_body_sound(pre);
        let pb = pre.post_body();
        assert(post.body == pb);
        assert(!post.occupies(post.apple)) by {
            if pre.eats() {
                assert(!occupied_in(pb, f));
            } else {
                assert(post.apple == pre.apple);
                assert(pre.target() != pre.apple);
                assert(!occupied_in(pb, pre.apple));
            }
        };
        assert(in_grid(post.apple.0, post.apple.1));
        assert(post.wf());
    }
}

/// A tick never shortens the body.
pub proof fn lemma_step_never_shrinks(pre: GameView, f: (u32, u32))
    requires
        pre.wf(),
        !pre.game_over,
        pre.food_ok(f),
    ensures
        pre.step_result(f).body.len() >= pre.body.len(),
{
}

/// Eating raises the score by exactly one at once, but the body grows
/// by exactly one only a tick later: the eating tick keeps the length,
/// and the following surviving tick that does not eat again adds one.
pub proof fn lemma_eating_grows_net_one(v0: GameView, f1: (u32, u32), f2: (u32, u32))
    requires
        v0.wf(),
        !v0.game_over,
        v0.score < u32::MAX,
        v0.eats(),
        v0.food_ok(f1),
        !v0.step_result(f1).eats(),
        v0.step_result(f1).food_ok(f2),
        !v0.step_result(f1).step_result(f2).game_over,
    ensures
        !v0.step_result(f1).game_over,
        v0.step_result(f1).score == v0.score + 1,
        v0.step_result(f1).body.len() == v0.body.len(),
        v0.step_result(f1).growing,
        v0.step_result(f1).step_result(f2).score == v0.score + 1,
        v0.step_result(f1).step_result(f2).body.len() == v0.body.len() + 1,
{
    let v1 = v0.step_result(f1);
    lemma_step_preserves_wf(v0, f1);
    assert(v1.body.len() == v0.body.len());
    let v2 = v1.step_result(f2);
    assert(!v1.hits_wall() && !v1.collides()) by {
        if v1.hits_wall() || v1.collides() {
            assert(v2.game_over);
        }
    };
    assert(v2.body.len() == v1.body.len() + 1);
}

} // verus!
