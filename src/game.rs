//! The game: a bird, the pipe pairs on screen, a score and a status.
use vstd::prelude::*;

use crate::bird::Bird;
use crate::pipes::PairOfPipes;
use crate::{
    GAP_MAX, GAP_MIN, OFF_SCREEN_X, PIPE_SPACING, PIPE_SPEED, SCREEN_HEIGHT, SCREEN_WIDTH,
    SPAWN_DISTANCE, SPAWN_X,
};

verus! {

#[derive(Clone, Copy, Debug, PartialEq, Eq, Structural)]
pub enum Status {
    Playing,
    GameOver,
}

/// The keys the game reacts to, as reported once per press.
#[derive(Clone, Copy, Debug, PartialEq, Eq, Structural)]
pub enum Key {
    Jump,
    Restart,
    Quit,
}

/// One thing for the host to draw, in model units.
#[derive(Clone, Copy, Debug, PartialEq, Eq, Structural)]
pub enum DrawCommand {
    Background,
    /// The upper pipe of a pair, drawn flipped vertically.
    TopPipe { x: i64, y: i64 },
    BottomPipe { x: i64, y: i64 },
    Bird { x: i64, y: i64 },
    Score { value: u64 },
    GameOverBanner,
}

/// The pipe pairs one frame later: each scrolled left, those that went off
/// screen dropped, the others kept in order.
pub open spec fn advanced(s: Seq<PairOfPipes>) -> Seq<PairOfPipes>
    decreases s.len(),
{
    if s.len() == 0 {
        s
    } else {
        let rest = advanced(s.drop_last());
        let q = s.last().spec_moved();
        if q.spec_off_screen() {
            rest
        } else {
            rest.push(q)
        }
    }
}

/// The pair scrolls past the bird's line `bx` during this frame.
pub open spec fn passes_bird(p: PairOfPipes, bx: i64) -> bool {
    p.x >= bx && p.x - PIPE_SPEED < bx
}

/// How many of the pairs scroll past the bird's line `bx` during this frame.
pub open spec fn count_passing(s: Seq<PairOfPipes>, bx: i64) -> nat
    decreases s.len(),
{
    if s.len() == 0 {
        0
    } else {
        count_passing(s.drop_last(), bx) + if passes_bird(s.last(), bx) {
            1nat
        } else {
            0nat
        }
    }
}

/// The last pair stands far enough from the right edge for a new one to come.
pub open spec fn needs_spawn(s: Seq<PairOfPipes>) -> bool {
    s.len() == 0 || s.last().x < SCREEN_WIDTH - SPAWN_DISTANCE
}

pub open spec fn with_spawn(s: Seq<PairOfPipes>, gap_y: i64) -> Seq<PairOfPipes> {
    if needs_spawn(s) {
        s.push(PairOfPipes { x: SPAWN_X, gap_y })
    } else {
        s
    }
}

/// Consecutive pairs stand exactly `PIPE_SPACING` apart.
pub open spec fn spaced(s: Seq<PairOfPipes>) -> bool {
    forall|i: int| 1 <= i < s.len() ==> #[trigger] s[i].x == s[i - 1].x + PIPE_SPACING
}

/// What holds of the pipe sequence between frames.
pub open spec fn pipes_wf(s: Seq<PairOfPipes>) -> bool {
    &&& forall|i: int|
        0 <= i < s.len() ==> (#[trigger] s[i]).wf() && OFF_SCREEN_X <= s[i].x <= SPAWN_X
    &&& spaced(s)
    &&& s.len() > 0 ==> SPAWN_X - SPAWN_DISTANCE <= s.last().x && (SPAWN_X - s.last().x)
        % (PIPE_SPEED as int) == 0
}

/// What a frame does to each pair: it scrolls, and it stays unless off screen.
proof fn lemma_advanced(s: Seq<PairOfPipes>)
    requires
        spaced(s),
        forall|i: int|
            0 <= i < s.len() ==> (#[trigger] s[i]).wf() && OFF_SCREEN_X <= s[i].x <= SPAWN_X,
    ensures
        forall|i: int|
            0 <= i < advanced(s).len() ==> (#[trigger] advanced(s)[i]).wf() && OFF_SCREEN_X
                <= advanced(s)[i].x <= SPAWN_X - PIPE_SPEED,
        spaced(advanced(s)),
        advanced(s).len() > 0 ==> advanced(s).last() == s.last().spec_moved(),
        s.len() > 0 && s.last().spec_moved().spec_off_screen() ==> advanced(s).len() == 0,
    decreases s.len(),
{
    if s.len() > 0 {
        let d = s.drop_last();
        assert forall|i: int| 0 <= i < d.len() implies (#[trigger] d[i]).wf() && OFF_SCREEN_X
            <= d[i].x <= SPAWN_X by {
            assert(d[i] == s[i]);
        }
        assert forall|i: int| 1 <= i < d.len() implies #[trigger] d[i].x == d[i - 1].x
            + PIPE_SPACING by {
            assert(d[i] == s[i]);
            assert(d[i - 1] == s[i - 1]);
        }
        lemma_advanced(d);
        let q = s.last().spec_moved();
        if !q.spec_off_screen() && advanced(d).len() > 0 {
            let a = advanced(s);
            let n = a.len();
            assert(a == advanced(d).push(q));
            assert(s[s.len() - 1].x == s[s.len() - 2].x + PIPE_SPACING);
            assert forall|i: int| 1 <= i < a.len() implies #[trigger] a[i].x == a[i - 1].x
                + PIPE_SPACING by {
                if i < n - 1 {
                    assert(a[i] == advanced(d)[i]);
                    assert(a[i - 1] == advanced(d)[i - 1]);
                }
            }
        }
        if s.len() > 1 && q.spec_off_screen() {
            assert(s[s.len() - 1].x == s[s.len() - 2].x + PIPE_SPACING);
        }
    }
}

/// Every pair left after a frame was there before it, with its gap anchor,
/// and has moved left by exactly `PIPE_SPEED`.
pub proof fn lemma_pairs_scroll_by_speed(s: Seq<PairOfPipes>)
    requires
        forall|j: int| 0 <= j < s.len() ==> (#[trigger] s[j]).x - PIPE_SPEED >= i64::MIN,
    ensures
        forall|i: int|
            0 <= i < advanced(s).len() ==> exists|j: int|
                0 <= j < s.len() && (#[trigger] advanced(s)[i]).x == s[j].x - PIPE_SPEED
                    && advanced(s)[i].gap_y == s[j].gap_y,
    decreases s.len(),
{
    if s.len() > 0 {
        let d = s.drop_last();
        assert forall|j: int| 0 <= j < d.len() implies (#[trigger] d[j]).x - PIPE_SPEED
            >= i64::MIN by {
            assert(d[j] == s[j]);
        }
        lemma_pairs_scroll_by_speed(d);
        let a = advanced(s);
        assert forall|i: int| 0 <= i < a.len() implies exists|j: int|
            0 <= j < s.len() && (#[trigger] a[i]).x == s[j].x - PIPE_SPEED && a[i].gap_y
                == s[j].gap_y by {
            if i < advanced(d).len() {
                assert(a[i] == advanced(d)[i]);
                let j = choose|j: int|
                    0 <= j < d.len() && advanced(d)[i].x == d[j].x - PIPE_SPEED
                        && advanced(d)[i].gap_y == d[j].gap_y;
                assert(d[j] == s[j]);
                assert(0 <= j < s.len() && a[i].x == s[j].x - PIPE_SPEED && a[i].gap_y
                    == s[j].gap_y);
            } else {
                let j = s.len() - 1;
                assert(a[i] == s.last().spec_moved());
                assert(s.last() == s[j]);
                assert(0 <= j < s.len() && a[i].x == s[j].x - PIPE_SPEED && a[i].gap_y
                    == s[j].gap_y);
            }
        }
    }
}

/// The number of pairs passing the bird in a prefix is at most that of the whole.
proof fn lemma_count_prefix(s: Seq<PairOfPipes>, bx: i64, i: int)
    requires
        0 <= i <= s.len(),
    ensures
        count_passing(s.subrange(0, i), bx) <= count_passing(s, bx),
    decreases s.len() - i,
{
    if i < s.len() {
        lemma_count_prefix(s, bx, i + 1);
        assert(s.subrange(0, i + 1).drop_last() =~= s.subrange(0, i));
    } else {
        assert(s.subrange(0, i) =~= s);
    }
}

/// The two draw commands of each pair, top pipe first, in sequence order.
pub open spec fn pipe_commands(s: Seq<PairOfPipes>) -> Seq<DrawCommand>
    decreases s.len(),
{
    if s.len() == 0 {
        Seq::empty()
    } else {
        let p = s.last();
        pipe_commands(s.drop_last()) + seq![
            DrawCommand::TopPipe { x: p.x, y: p.spec_top_y() as i64 },
            DrawCommand::BottomPipe { x: p.x, y: p.spec_bottom_y() as i64 },
        ]
    }
}

/// A frame keeps the game well formed. In particular every pair left after
/// the frame is still on screen, and consecutive pairs stay exactly
/// `PIPE_SPACING` apart.
pub proof fn lemma_step_keeps_wf(pre: GameState, post: GameState, gap_y: i64)
    requires
        pre.wf(),
        GAP_MIN <= gap_y < GAP_MAX,
        GameState::is_step(pre, post, gap_y),
    ensures
        post.wf(),
        forall|i: int| 0 <= i < post.pipes@.len() ==> !(#[trigger] post.pipes@[i]).spec_off_screen(),
{
    if pre.status == Status::Playing {
        let s = pre.pipes@;
        let a = advanced(s);
        lemma_advanced(s);
        if s.len() > 0 {
            assert(!s.last().spec_moved().spec_off_screen());
            assert(a.len() > 0);
        }
        if needs_spawn(a) {
            let t = a.push(PairOfPipes { x: SPAWN_X, gap_y });
            assert(post.pipes@ == t);
            if a.len() > 0 {
                assert(a.last().x == SPAWN_X - PIPE_SPACING);
            }
            assert forall|i: int| 1 <= i < t.len() implies #[trigger] t[i].x == t[i - 1].x
                + PIPE_SPACING by {
                if i < t.len() - 1 {
                    assert(t[i] == a[i]);
                    assert(t[i - 1] == a[i - 1]);
                }
            }
            assert forall|i: int| 0 <= i < t.len() implies (#[trigger] t[i]).wf() && OFF_SCREEN_X
                <= t[i].x <= SPAWN_X by {
                if i < t.len() - 1 {
                    assert(t[i] == a[i]);
                }
            }
        }
    } else {
        assert(post.pipes@ == pre.pipes@);
    }
}

/// A pair spawned by a frame behind another stands exactly `PIPE_SPACING`
/// behind it, at the right edge of the screen.
pub proof fn lemma_spawn_follows_at_spacing(pre: GameState, post: GameState, gap_y: i64)
    requires
        pre.wf(),
        pre.status == Status::Playing,
        GAP_MIN <= gap_y < GAP_MAX,
        GameState::is_step(pre, post, gap_y),
        post.pipes@.len() > advanced(pre.pipes@).len(),
        post.pipes@.len() >= 2,
    ensures
        post.pipes@.last().x == SPAWN_X,
        post.pipes@.last().gap_y == gap_y,
        post.pipes@.last().x - post.pipes@[post.pipes@.len() - 2].x == PIPE_SPACING,
{
    lemma_step_keeps_wf(pre, post, gap_y);
    assert(needs_spawn(advanced(pre.pipes@)));
    let n = post.pipes@.len();
    assert(post.pipes@[n - 1].x == post.pipes@[n - 2].x + PIPE_SPACING);
}

pub struct GameState {
    pub bird: Bird,
    pub pipes: Vec<PairOfPipes>,
    pub score: u64,
    pub status: Status,
}

impl GameState {
    /// While playing the bird is on screen, and so its velocity is bounded
    /// by the screen height; the pipes are as `pipes_wf` says.
    pub open spec fn wf(self) -> bool {
        &&& pipes_wf(self.pipes@)
        &&& self.status == Status::Playing ==> 0 <= self.bird.y <= SCREEN_HEIGHT
            && -SCREEN_HEIGHT <= self.bird.velocity <= SCREEN_HEIGHT
    }

    /// The state a game starts in: the bird at its start, no pipes yet, no
    /// score, playing. The first frame spawns the first pair.
    pub open spec fn is_initial(self) -> bool {
        &&& self.bird == Bird::spec_start()
        &&& self.pipes@.len() == 0
        &&& self.score == 0
        &&& self.status == Status::Playing
    }

    /// `post` is `pre` one frame later, where a pair spawned in that frame
    /// gets the gap anchor `gap_y`. Nothing moves once the game is over.
    pub open spec fn is_step(pre: GameState, post: GameState, gap_y: i64) -> bool {
        if pre.status == Status::GameOver {
            &&& post.bird == pre.bird
            &&& post.pipes@ == pre.pipes@
            &&& post.score == pre.score
            &&& post.status == pre.status
        } else {
            &&& post.bird == pre.bird.spec_fallen()
            &&& post.pipes@ == with_spawn(advanced(pre.pipes@), gap_y)
            &&& post.score == pre.score + count_passing(pre.pipes@, pre.bird.x)
            &&& post.status == if post.bird.spec_out_of_bounds() {
                Status::GameOver
            } else {
                Status::Playing
            }
        }
    }

    /// The score still fits after this frame.
    pub open spec fn score_fits(self) -> bool {
        self.status == Status::Playing ==> self.score + count_passing(self.pipes@, self.bird.x)
            <= u64::MAX
    }

    pub fn new() -> (r: GameState)
        ensures
            r.is_initial(),
            r.wf(),
    {
        GameState { bird: Bird::new(), pipes: Vec::new(), score: 0, status: Status::Playing }
    }

    /// One frame: gravity on the bird, every pair scrolled, pairs off screen
    /// removed, a new pair with gap anchor `gap_y` spawned if the last one is
    /// far enough from the right edge, a point for every pair that scrolls
    /// past the bird, and the game over once the bird leaves the screen.
    /// Nothing happens once the game is over.
    pub fn update_with_gap(&mut self, gap_y: i64)
        requires
            old(self).wf(),
            old(self).score_fits(),
            GAP_MIN <= gap_y < GAP_MAX,
        ensures
            GameState::is_step(*old(self), *final(self), gap_y),
            final(self).wf(),
            forall|i: int|
                0 <= i < final(self).pipes@.len() ==> !(#[trigger] final(self).pipes@[i]).spec_off_screen(),
    {
        if self.status == Status::GameOver {
            return;
        }
        let bx = self.bird.x;
        self.bird.update();
        let mut kept: Vec<PairOfPipes> = Vec::new();
        let mut passed: u64 = 0;
        let n = self.pipes.len();
        let mut i: usize = 0;
        while i < n
            invariant
                n == self.pipes@.len(),
                0 <= i <= n,
                self.pipes@ == old(self).pipes@,
                bx == old(self).bird.x,
                pipes_wf(self.pipes@),
                kept@ == advanced(self.pipes@.subrange(0, i as int)),
                passed == count_passing(self.pipes@.subrange(0, i as int), bx),
                old(self).score + count_passing(self.pipes@, bx) <= u64::MAX,
            decreases n - i,
        {
            let mut p = self.pipes[i];
            assert(p == self.pipes@[i as int]);
            assert(self.pipes@.subrange(0, i + 1).drop_last() =~= self.pipes@.subrange(0, i as int));
            proof {
                lemma_count_prefix(self.pipes@, bx, i + 1);
            }
            if p.x >= bx && p.x - PIPE_SPEED < bx {
                passed = passed + 1;
            }
            p.update();
            if !p.is_off_screen() {
                kept.push(p);
            }
            i = i + 1;
        }
        assert(self.pipes@.subrange(0, n as int) =~= self.pipes@);
        let spawn = kept.len() == 0 || kept[kept.len() - 1].x < SCREEN_WIDTH - SPAWN_DISTANCE;
        if spawn {
            kept.push(PairOfPipes::with_gap(SPAWN_X, gap_y));
        }
        self.pipes = kept;
        self.score = self.score + passed;
        if self.bird.is_out_of_bounds() {
            self.status = Status::GameOver;
        }
        proof {
            lemma_step_keeps_wf(*old(self), *self, gap_y);
        }
    }

    /// One frame, where a pair spawned in it gets a gap anchor drawn at
    /// random from `[GAP_MIN, GAP_MAX)`.
    pub fn update(&mut self)
        requires
            old(self).wf(),
            old(self).score_fits(),
        ensures
            exists|g: i64| GAP_MIN <= g < GAP_MAX && GameState::is_step(*old(self), *final(self), g),
            final(self).wf(),
    {
        let fresh = PairOfPipes::new(SPAWN_X);
        self.update_with_gap(fresh.gap_y);
    }

    /// Jumps while playing; does nothing once the game is over.
    pub fn jump(&mut self)
        requires
            old(self).wf(),
        ensures
            final(self).wf(),
            final(self).bird == if old(self).status == Status::Playing {
                old(self).bird.spec_jumped()
            } else {
                old(self).bird
            },
            final(self).pipes@ == old(self).pipes@,
            final(self).score == old(self).score,
            final(self).status == old(self).status,
    {
        if self.status == Status::Playing {
            self.bird.jump();
        }
    }

    /// Starts the game afresh: bird, pipes, score and status.
    pub fn restart(&mut self)
        ensures
            final(self).is_initial(),
            final(self).wf(),
    {
        *self = GameState::new();
    }

    /// Reacts to one key press and tells whether the host should stop. Jump
    /// acts only while playing, restart only once the game is over.
    pub fn handle_input(&mut self, key: Key) -> (quit: bool)
        requires
            old(self).wf(),
        ensures
            quit == (key == Key::Quit),
            final(self).wf(),
            key == Key::Jump && old(self).status == Status::Playing ==> {
                &&& final(self).bird == old(self).bird.spec_jumped()
                &&& final(self).pipes@ == old(self).pipes@
                &&& final(self).score == old(self).score
                &&& final(self).status == old(self).status
            },
            key == Key::Restart && old(self).status == Status::GameOver ==> final(self).is_initial(),
            !(key == Key::Jump && old(self).status == Status::Playing) && !(key == Key::Restart
                && old(self).status == Status::GameOver) ==> {
                &&& final(self).bird == old(self).bird
                &&& final(self).pipes@ == old(self).pipes@
                &&& final(self).score == old(self).score
                &&& final(self).status == old(self).status
            },
    {
        match key {
            Key::Jump => {
                self.jump();
                false
            },
            Key::Restart => {
                if self.status == Status::GameOver {
                    self.restart();
                }
                false
            },
            Key::Quit => true,
        }
    }

    /// What a frame shows, back to front.
    pub open spec fn spec_draw_commands(self) -> Seq<DrawCommand> {
        seq![DrawCommand::Background] + pipe_commands(self.pipes@) + seq![
            DrawCommand::Bird { x: self.bird.x, y: self.bird.y },
            DrawCommand::Score { value: self.score },
        ] + if self.status == Status::GameOver {
            seq![DrawCommand::GameOverBanner]
        } else {
            Seq::empty()
        }
    }

    /// The draw calls of one frame, back to front: the background, both
    /// pipes of each pair in sequence order, the bird, the score, and the
    /// game-over banner if the game is over.
    pub fn draw_commands(&self) -> (r: Vec<DrawCommand>)
        requires
            self.wf(),
        ensures
            r@ == self.spec_draw_commands(),
    {
        let mut cmds: Vec<DrawCommand> = Vec::new();
        cmds.push(DrawCommand::Background);
        let n = self.pipes.len();
        let mut i: usize = 0;
        while i < n
            invariant
                n == self.pipes@.len(),
                0 <= i <= n,
                pipes_wf(self.pipes@),
                cmds@ == seq![DrawCommand::Background] + pipe_commands(
                    self.pipes@.subrange(0, i as int),
                ),
            decreases n - i,
        {
            let p = self.pipes[i];
            assert(p == self.pipes@[i as int]);
            let ghost before = cmds@;
            cmds.push(DrawCommand::TopPipe { x: p.x, y: p.top_y() });
            cmds.push(DrawCommand::BottomPipe { x: p.x, y: p.bottom_y() });
            proof {
                let s = self.pipes@.subrange(0, i + 1);
                assert(s.drop_last() =~= self.pipes@.subrange(0, i as int));
                assert(s.last() == p);
                assert(cmds@ =~= seq![DrawCommand::Background] + pipe_commands(s));
            }
            i = i + 1;
        }
        assert(self.pipes@.subrange(0, n as int) =~= self.pipes@);
        cmds.push(DrawCommand::Bird { x: self.bird.x, y: self.bird.y });
        cmds.push(DrawCommand::Score { value: self.score });
        if self.status == Status::GameOver {
            cmds.push(DrawCommand::GameOverBanner);
        }
        assert(cmds@ =~= self.spec_draw_commands());
        cmds
    }
}

} // verus!
