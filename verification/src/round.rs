use vstd::prelude::*;
use crate::grid::Grid;
use crate::player::Player;
use crate::player::PlayerColor;

verus! {

/// Number of simulation sub-steps per rendered frame.
pub const SPEED: usize = 4;

/// Number of player slots; slots at and past `player_count` sit out.
pub const MAX_PLAYER: usize = 4;

/// One trail entry: a newly claimed cell and the identity color of the slot
/// that claimed it, appended exactly once per claimed cell in claim order.
#[derive(Clone, Copy, PartialEq, Eq, Structural, Debug)]
pub struct TrailPoint {
    pub x: usize,
    pub y: usize,
    pub color: PlayerColor,
}

/// A discrete control event handed to the round controller, one per input
/// edge.
#[derive(Clone, Copy, PartialEq, Eq, Structural, Debug)]
pub enum Command {
    /// Turn the slot's heading one step toward increasing index.
    RotateInc { slot: usize },
    /// Turn the slot's heading one step toward decreasing index.
    RotateDec { slot: usize },
    /// Ask for a round reset; recorded now, consumed at the next frame.
    Reset,
    /// Set how many of the four slots participate (1 through 4).
    SetPlayerCount { count: usize },
}

/// The fixed identity color of each player slot.
pub open spec fn slot_color(i: int) -> PlayerColor {
    if i == 0 {
        PlayerColor::Red
    } else if i == 1 {
        PlayerColor::Green
    } else if i == 2 {
        PlayerColor::Blue
    } else {
        PlayerColor::Yellow
    }
}

/// How many of the first n slots of the roster are alive.
pub open spec fn alive_count(players: Seq<Player>, n: int) -> int
    decreases n,
{
    if n <= 0 {
        0
    } else {
        alive_count(players, n - 1) + if players[n - 1].active {
            1int
        } else {
            0int
        }
    }
}

/// The whole game state of one process: the field dimensions, the fixed
/// roster of four player slots, the occupancy grid, the trail record, and
/// the round bookkeeping.
pub struct GameState {
    pub width: usize,
    pub height: usize,
    pub players: Vec<Player>,
    pub player_count: usize,
    pub game_running: bool,
    pub winner: Option<usize>,
    pub winner_resolved: bool,
    pub reset_requested: bool,
    pub grid: Grid,
    pub trail: Vec<TrailPoint>,
}

impl GameState {
    /// Well-formedness: positive dimensions shared by grid and players, a
    /// full roster of four in-bounds players carrying their slot colors, and
    /// a participation count in 1..=4.
    pub open spec fn wf(&self) -> bool {
        &&& 0 < self.width
        &&& 0 < self.height
        &&& self.width * self.height <= usize::MAX
        &&& self.grid.wf()
        &&& self.grid.width == self.width
        &&& self.grid.height == self.height
        &&& self.players@.len() == MAX_PLAYER
        &&& forall|i: int|
            0 <= i < MAX_PLAYER ==> (#[trigger] self.players@[i]).in_bounds(
                self.width,
                self.height,
            )
        &&& forall|i: int|
            0 <= i < MAX_PLAYER ==> (#[trigger] self.players@[i]).color == slot_color(i)
        &&& 1 <= self.player_count <= MAX_PLAYER
        &&& match self.winner {
            Option::Some(w) => w < MAX_PLAYER,
            Option::None => true,
        }
    }

    /// Player i after the movement pass of one sub-step: a participating
    /// live player steps along its heading with wraparound, everyone else
    /// stays.
    pub open spec fn moved_player(&self, i: int) -> Player {
        let p = self.players@[i];
        if i < self.player_count && p.active {
            p.spec_stepped(self.width, self.height)
        } else {
            p
        }
    }

    /// Player i after the collision pass of one sub-step: a participating
    /// slot whose cell is claimed in the grid as it stood at the start of
    /// the sub-step is eliminated.
    pub open spec fn post_player(&self, i: int) -> Player {
        let m = self.moved_player(i);
        if i < self.player_count && self.grid.claimed(m.x as int, m.y as int) {
            Player { active: false, ..m }
        } else {
            m
        }
    }

    /// How many of the first n slots are alive once the collision pass of
    /// this sub-step has run.
    pub open spec fn alive_after(&self, n: int) -> int
        decreases n,
    {
        if n <= 0 {
            0
        } else {
            self.alive_after(n - 1) + if self.post_player(n - 1).active {
                1int
            } else {
                0int
            }
        }
    }

    /// Whether slot u appends a trail entry in the claim pass of this
    /// sub-step: it survived the collision pass, its cell was free when the
    /// sub-step began, and no earlier surviving slot stands on the same
    /// cell (the earlier slot claims it first).
    pub open spec fn appends(&self, u: int) -> bool {
        let p = self.post_player(u);
        &&& p.active
        &&& !self.grid.claimed(p.x as int, p.y as int)
        &&& forall|v: int|
            0 <= v < u ==> !((#[trigger] self.post_player(v)).active
                && self.post_player(v).x == p.x && self.post_player(v).y == p.y)
    }

    /// The trail entries the claim pass of this sub-step appends for slots
    /// [0, u), in slot order.
    pub open spec fn new_trail(&self, u: int) -> Seq<TrailPoint>
        decreases u,
    {
        if u <= 0 {
            Seq::empty()
        } else {
            self.new_trail(u - 1) + if self.appends(u - 1) {
                seq![
                    TrailPoint {
                        x: self.post_player(u - 1).x,
                        y: self.post_player(u - 1).y,
                        color: self.post_player(u - 1).color,
                    },
                ]
            } else {
                Seq::empty()
            }
        }
    }

    /// The first participating slot at or past u that is still alive, if
    /// any.
    pub open spec fn first_alive_from(&self, u: int) -> Option<usize>
        decreases self.player_count - u,
    {
        if u < 0 || u >= self.player_count {
            Option::None
        } else if self.players@[u].active {
            Option::Some(u as usize)
        } else {
            self.first_alive_from(u + 1)
        }
    }

    /// The winner the round resolves to: the first participating alive slot,
    /// or None when every participant was eliminated.
    pub open spec fn spec_winner(&self) -> Option<usize> {
        self.first_alive_from(0)
    }
}

/// The round bookkeeping one sub-step never touches.
pub open spec fn same_config(pre: GameState, post: GameState) -> bool {
    &&& post.width == pre.width
    &&& post.height == pre.height
    &&& post.player_count == pre.player_count
    &&& post.winner == pre.winner
    &&& post.winner_resolved == pre.winner_resolved
    &&& post.reset_requested == pre.reset_requested
}

/// Exact relation between the state when one sub-step starts and when it
/// ends: every participating live player moves one wrapped cell, every
/// participating slot standing on a cell that was claimed when the sub-step
/// began is eliminated, the round keeps running exactly when at least two
/// participants survive, and the claim pass then claims every surviving
/// participant's cell and appends one trail entry per newly claimed cell in
/// slot order.
pub open spec fn sub_step_rel(pre: GameState, post: GameState) -> bool {
    &&& pre.wf()
    &&& pre.game_running
    &&& post.wf()
    &&& same_config(pre, post)
    &&& post.players@.len() == MAX_PLAYER
    &&& forall|i: int| 0 <= i < MAX_PLAYER ==> #[trigger] post.players@[i] == pre.post_player(i)
    &&& post.game_running == (pre.alive_after(pre.player_count as int) >= 2)
    &&& forall|x: int, y: int|
        0 <= x < pre.width && 0 <= y < pre.height ==> #[trigger] post.grid.claimed(x, y) == (
        pre.grid.claimed(x, y) || exists|u: int|
            0 <= u < pre.player_count && (#[trigger] pre.post_player(u)).active
                && pre.post_player(u).x == x && pre.post_player(u).y == y)
    &&& post.trail@ == pre.trail@ + pre.new_trail(pre.player_count as int)
}

/// One sub-step of a frame's batch, or nothing once the round has stopped:
/// remaining sub-steps of the frame are skipped.
pub open spec fn step_or_stop(mid: GameState, post: GameState) -> bool {
    if mid.game_running {
        sub_step_rel(mid, post)
    } else {
        post == mid
    }
}

/// A frame trace: successive states of one frame's sub-step batch, each
/// following from the one before by a sub-step, or unchanged once the round
/// has stopped.
pub open spec fn trace_ok(tr: Seq<GameState>) -> bool {
    forall|k: int| 0 <= k < tr.len() - 1 ==> #[trigger] step_or_stop(tr[k], tr[k + 1])
}

/// The state after n sub-steps of one frame: sub-steps run in order and
/// stop once the round is no longer running.
pub open spec fn steps_rel(pre: GameState, post: GameState, n: nat) -> bool {
    exists|tr: Seq<GameState>|
        #![trigger trace_ok(tr)]
        tr.len() == n + 1 && tr[0] == pre && tr[n as int] == post && trace_ok(tr)
}

/// The reset transition: occupancy grid and trail cleared, all four slots
/// revived at fresh pseudo-random positions with their identity colors
/// kept, the round running again, the cached winner cleared, and the
/// pending request consumed. Dimensions and participation count are kept.
pub open spec fn reset_rel(pre: GameState, post: GameState) -> bool {
    &&& post.wf()
    &&& post.width == pre.width
    &&& post.height == pre.height
    &&& post.player_count == pre.player_count
    &&& post.game_running
    &&& post.winner == Option::<usize>::None
    &&& !post.winner_resolved
    &&& !post.reset_requested
    &&& post.trail@.len() == 0
    &&& forall|x: int, y: int|
        0 <= x < pre.width && 0 <= y < pre.height ==> !post.grid.claimed(x, y)
    &&& post.players@.len() == MAX_PLAYER
    &&& forall|i: int| 0 <= i < MAX_PLAYER ==> (#[trigger] post.players@[i]).active
    &&& forall|i: int|
        0 <= i < MAX_PLAYER ==> (#[trigger] post.players@[i]).color == pre.players@[i].color
}

/// How a frame begins: a pending reset request is consumed by resetting the
/// round; otherwise the state enters the frame untouched.
pub open spec fn begin_rel(pre: GameState, s0: GameState) -> bool {
    if pre.reset_requested {
        reset_rel(pre, s0)
    } else {
        s0 == pre
    }
}

/// How a frame ends: the first frame that finds the round ended and the
/// winner not yet resolved caches the first alive participating slot (None
/// when all were eliminated); any other frame leaves the state untouched.
pub open spec fn resolve_rel(pre: GameState, post: GameState) -> bool {
    if !pre.game_running && !pre.winner_resolved {
        post == (GameState {
            winner: pre.spec_winner(),
            winner_resolved: true,
            ..pre
        })
    } else {
        post == pre
    }
}

/// One rendered frame: an optional reset, then up to SPEED sub-steps
/// stopping early once the round has ended, then winner resolution.
pub open spec fn frame_rel(pre: GameState, post: GameState) -> bool {
    exists|s0: GameState, s1: GameState|
        begin_rel(pre, s0) && #[trigger] steps_rel(s0, s1, SPEED as nat) && resolve_rel(s1, post)
}

/// The end-of-round message as its character sequence: the 1-based winner
/// slot, or a draw.
pub open spec fn spec_winner_message(w: Option<usize>) -> Seq<char> {
    match w {
        Option::Some(i) => if i == 0 {
            "Player 1 wins"@
        } else if i == 1 {
            "Player 2 wins"@
        } else if i == 2 {
            "Player 3 wins"@
        } else {
            "Player 4 wins"@
        },
        Option::None => "Draw"@,
    }
}

impl GameState {
    /// A fresh process state: a field of the given dimensions, four freshly
    /// placed players carrying the fixed slot colors, all four
    /// participating, an empty grid and trail, and the round running.
    pub fn new(width: usize, height: usize) -> (s: GameState)
        requires
            0 < width,
            0 < height,
            width * height <= usize::MAX,
        ensures
            s.wf(),
            s.width == width,
            s.height == height,
            s.player_count == MAX_PLAYER,
            s.game_running,
            s.winner == Option::<usize>::None,
            !s.winner_resolved,
            !s.reset_requested,
            s.trail@.len() == 0,
            forall|x: int, y: int|
                0 <= x < width && 0 <= y < height ==> !s.grid.claimed(x, y),
            forall|i: int| 0 <= i < MAX_PLAYER ==> (#[trigger] s.players@[i]).active,
    {
        let mut players: Vec<Player> = Vec::new();
        players.push(Player::new(PlayerColor::Red, width, height));
        players.push(Player::new(PlayerColor::Green, width, height));
        players.push(Player::new(PlayerColor::Blue, width, height));
        players.push(Player::new(PlayerColor::Yellow, width, height));
        GameState {
            width,
            height,
            players,
            player_count: MAX_PLAYER,
            game_running: true,
            winner: Option::None,
            winner_resolved: false,
            reset_requested: false,
            grid: Grid::new(width, height),
            trail: Vec::new(),
        }
    }

    /// Start a new round in place: clear the grid and the trail, revive all
    /// four slots at fresh pseudo-random positions, clear the cached winner,
    /// set the round running, and consume any pending reset request.
    pub fn reset_round(&mut self)
        requires
            old(self).wf(),
        ensures
            final(self).wf(),
            reset_rel(*old(self), *final(self)),
    {
        self.game_running = true;
        self.grid.clear();
        self.trail.clear();
        let w = self.width;
        let h = self.height;
        let mut u: usize = 0;
        while u < MAX_PLAYER
            invariant
                u <= MAX_PLAYER,
                0 < w,
                0 < h,
                self.width == w,
                self.height == h,
                self.players@.len() == MAX_PLAYER,
                forall|i: int|
                    0 <= i < u ==> (#[trigger] self.players@[i]).active
                        && self.players@[i].in_bounds(w, h)
                        && self.players@[i].color == old(self).players@[i].color,
                forall|i: int|
                    u <= i < MAX_PLAYER ==> self.players@[i] == old(self).players@[i],
                self.grid.wf(),
                self.grid.width == w,
                self.grid.height == h,
                forall|x: int, y: int| 0 <= x < w && 0 <= y < h ==> !self.grid.claimed(x, y),
                self.trail@.len() == 0,
                self.player_count == old(self).player_count,
                self.game_running,
                self.width * self.height <= usize::MAX,
            decreases MAX_PLAYER - u,
        {
            let mut p = self.players[u];
            p.reset(w, h);
            self.players[u] = p;
            u = u + 1;
        }
        self.winner = Option::None;
        self.winner_resolved = false;
        self.reset_requested = false;
    }

    /// Apply one discrete control event. Turn commands take effect
    /// immediately, even several times between frames; a reset is only
    /// recorded and is consumed at the start of the next frame; a slot
    /// index or participant count outside its valid range is ignored.
    pub fn apply_command(&mut self, cmd: Command)
        requires
            old(self).wf(),
        ensures
            final(self).wf(),
            match cmd {
                Command::RotateInc { slot } => {
                    &&& same_config(*old(self), *final(self))
                    &&& final(self).grid == old(self).grid
                    &&& final(self).trail == old(self).trail
                    &&& final(self).game_running == old(self).game_running
                    &&& final(self).players@ == if slot < MAX_PLAYER {
                        old(self).players@.update(
                            slot as int,
                            (Player {
                                dir: old(self).players@[slot as int].dir.spec_rotated_inc(),
                                ..old(self).players@[slot as int]
                            }),
                        )
                    } else {
                        old(self).players@
                    }
                },
                Command::RotateDec { slot } => {
                    &&& same_config(*old(self), *final(self))
                    &&& final(self).grid == old(self).grid
                    &&& final(self).trail == old(self).trail
                    &&& final(self).game_running == old(self).game_running
                    &&& final(self).players@ == if slot < MAX_PLAYER {
                        old(self).players@.update(
                            slot as int,
                            (Player {
                                dir: old(self).players@[slot as int].dir.spec_rotated_dec(),
                                ..old(self).players@[slot as int]
                            }),
                        )
                    } else {
                        old(self).players@
                    }
                },
                Command::Reset => *final(self) == (GameState {
                    reset_requested: true,
                    ..*old(self)
                }),
                Command::SetPlayerCount { count } => *final(self) == (GameState {
                    player_count: if 1 <= count && count <= MAX_PLAYER {
                        count
                    } else {
                        old(self).player_count
                    },
                    ..*old(self)
                }),
            },
    {
        match cmd {
            Command::RotateInc { slot } => {
                if slot < MAX_PLAYER {
                    let mut p = self.players[slot];
                    p.dir = p.dir.rotated_inc();
                    self.players[slot] = p;
                }
            },
            Command::RotateDec { slot } => {
                if slot < MAX_PLAYER {
                    let mut p = self.players[slot];
                    p.dir = p.dir.rotated_dec();
                    self.players[slot] = p;
                }
            },
            Command::Reset => {
                self.reset_requested = true;
            },
            Command::SetPlayerCount { count } => {
                if 1 <= count && count <= MAX_PLAYER {
                    self.player_count = count;
                }
            },
        }
    }

    /// One simulation sub-step, in the order the rules fix: movement pass
    /// over participating live players, collision pass against the grid as
    /// it stood when the sub-step began (slot order matters only for the
    /// trail), alive recount ending the round when at most one participant
    /// survives, then the claim pass in slot order.
    pub fn sub_step(&mut self)
        requires
            old(self).wf(),
            old(self).game_running,
        ensures
            sub_step_rel(*old(self), *final(self)),
    {
        let ghost pre = *old(self);
        let count = self.player_count;
        let w = self.width;
        let h = self.height;

        // Movement pass.
        let mut u: usize = 0;
        while u < count
            invariant
                pre.wf(),
                u <= count,
                count == pre.player_count,
                w == pre.width,
                h == pre.height,
                self.width == pre.width,
                self.height == pre.height,
                self.player_count == pre.player_count,
                self.game_running == pre.game_running,
                self.winner == pre.winner,
                self.winner_resolved == pre.winner_resolved,
                self.reset_requested == pre.reset_requested,
                self.grid == pre.grid,
                self.trail == pre.trail,
                self.players@.len() == MAX_PLAYER,
                forall|i: int| 0 <= i < u ==> #[trigger] self.players@[i] == pre.moved_player(i),
                forall|i: int|
                    u <= i < MAX_PLAYER ==> #[trigger] self.players@[i] == pre.players@[i],
            decreases count - u,
        {
            if self.players[u].active {
                let mut p = self.players[u];
                p.tick(w, h);
                self.players[u] = p;
            }
            u = u + 1;
        }

        // Collision pass and alive recount, against the grid as it stood at
        // the start of the sub-step.
        let mut alive: usize = 0;
        let mut u: usize = 0;
        while u < count
            invariant
                pre.wf(),
                u <= count,
                count == pre.player_count,
                self.width == pre.width,
                self.height == pre.height,
                self.player_count == pre.player_count,
                self.game_running == pre.game_running,
                self.winner == pre.winner,
                self.winner_resolved == pre.winner_resolved,
                self.reset_requested == pre.reset_requested,
                self.grid == pre.grid,
                self.trail == pre.trail,
                self.players@.len() == MAX_PLAYER,
                forall|i: int| 0 <= i < u ==> #[trigger] self.players@[i] == pre.post_player(i),
                forall|i: int|
                    u <= i < count ==> #[trigger] self.players@[i] == pre.moved_player(i),
                forall|i: int|
                    count <= i < MAX_PLAYER ==> #[trigger] self.players@[i] == pre.players@[i],
                alive == pre.alive_after(u as int),
                alive <= u,
            decreases count - u,
        {
            proof {
                assert(pre.moved_player(u as int).in_bounds(pre.width, pre.height));
            }
            let p = self.players[u];
            if self.grid.is_claimed(p.x, p.y) {
                let mut q = p;
                q.active = false;
                self.players[u] = q;
            }
            if self.players[u].active {
                alive = alive + 1;
            }
            u = u + 1;
        }

        if alive <= 1 {
            self.game_running = false;
        }

        // Claim pass, in slot order: claim each surviving participant's
        // cell and record each newly claimed cell once.
        proof {
            assert forall|i: int|
                count <= i < MAX_PLAYER implies #[trigger] self.players@[i]
                    == pre.post_player(i) by {}
            assert(self.trail@ =~= pre.trail@ + pre.new_trail(0));
        }
        let mut u: usize = 0;
        while u < count
            invariant
                pre.wf(),
                u <= count,
                count == pre.player_count,
                self.width == pre.width,
                self.height == pre.height,
                self.player_count == pre.player_count,
                self.winner == pre.winner,
                self.winner_resolved == pre.winner_resolved,
                self.reset_requested == pre.reset_requested,
                self.game_running == (pre.alive_after(count as int) >= 2),
                self.grid.wf(),
                self.grid.width == pre.width,
                self.grid.height == pre.height,
                self.players@.len() == MAX_PLAYER,
                forall|i: int|
                    0 <= i < MAX_PLAYER ==> #[trigger] self.players@[i] == pre.post_player(i),
                forall|x: int, y: int|
                    0 <= x < pre.width && 0 <= y < pre.height ==> #[trigger] self.grid.claimed(
                        x,
                        y,
                    ) == (pre.grid.claimed(x, y) || exists|v: int|
                        0 <= v < u && (#[trigger] pre.post_player(v)).active && pre.post_player(
                            v,
                        ).x == x && pre.post_player(v).y == y),
                self.trail@ == pre.trail@ + pre.new_trail(u as int),
            decreases count - u,
        {
            let ghost prev_grid = self.grid;
            let ghost ui = u as int;
            let p = self.players[u];
            proof {
                assert(p == pre.post_player(ui));
                assert(pre.moved_player(ui).in_bounds(pre.width, pre.height));
                assert(p.x == pre.moved_player(ui).x && p.y == pre.moved_player(ui).y);
            }
            if p.active {
                proof {
                    // A survivor's cell was free when the sub-step began.
                    assert(!pre.grid.claimed(p.x as int, p.y as int));
                }
                if !self.grid.is_claimed(p.x, p.y) {
                    self.trail.push(TrailPoint { x: p.x, y: p.y, color: p.color });
                    proof {
                        assert(!(exists|v: int|
                            0 <= v < ui && (#[trigger] pre.post_player(v)).active
                                && pre.post_player(v).x == p.x && pre.post_player(v).y == p.y));
                        assert(pre.appends(ui));
                        assert(pre.new_trail(ui + 1) =~= pre.new_trail(ui) + seq![
                            TrailPoint { x: p.x, y: p.y, color: p.color },
                        ]);
                        assert(self.trail@ =~= pre.trail@ + pre.new_trail(ui + 1));
                    }
                } else {
                    proof {
                        assert(exists|v: int|
                            0 <= v < ui && (#[trigger] pre.post_player(v)).active
                                && pre.post_player(v).x == p.x && pre.post_player(v).y == p.y);
                        assert(!pre.appends(ui));
                        assert(pre.new_trail(ui + 1) =~= pre.new_trail(ui));
                        assert(self.trail@ =~= pre.trail@ + pre.new_trail(ui + 1));
                    }
                }
                self.grid.claim(p.x, p.y);
                proof {
                    assert forall|x: int, y: int|
                        0 <= x < pre.width && 0 <= y < pre.height implies #[trigger] self.grid.claimed(
                            x,
                            y,
                        ) == (pre.grid.claimed(x, y) || exists|v: int|
                            0 <= v < ui + 1 && (#[trigger] pre.post_player(v)).active
                                && pre.post_player(v).x == x && pre.post_player(v).y == y) by {
                        if x == p.x && y == p.y {
                            assert(pre.post_player(ui).active && pre.post_player(ui).x == x
                                && pre.post_player(ui).y == y);
                            assert(exists|v: int|
                                0 <= v < ui + 1 && (#[trigger] pre.post_player(v)).active
                                    && pre.post_player(v).x == x && pre.post_player(v).y == y);
                        } else {
                            assert(self.grid.claimed(x, y) == prev_grid.claimed(x, y));
                            if exists|v: int|
                                0 <= v < ui + 1 && (#[trigger] pre.post_player(v)).active
                                    && pre.post_player(v).x == x && pre.post_player(v).y == y {
                                let v = choose|v: int|
                                    0 <= v < ui + 1 && (#[trigger] pre.post_player(v)).active
                                        && pre.post_player(v).x == x && pre.post_player(v).y == y;
                                assert(v < ui);
                            }
                        }
                    }
                }
            } else {
                proof {
                    assert(!pre.appends(ui));
                    assert(pre.new_trail(ui + 1) =~= pre.new_trail(ui));
                    assert(self.trail@ =~= pre.trail@ + pre.new_trail(ui + 1));
                    assert forall|x: int, y: int|
                        0 <= x < pre.width && 0 <= y < pre.height implies #[trigger] self.grid.claimed(
                            x,
                            y,
                        ) == (pre.grid.claimed(x, y) || exists|v: int|
                            0 <= v < ui + 1 && (#[trigger] pre.post_player(v)).active
                                && pre.post_player(v).x == x && pre.post_player(v).y == y) by {
                        if exists|v: int|
                            0 <= v < ui + 1 && (#[trigger] pre.post_player(v)).active
                                && pre.post_player(v).x == x && pre.post_player(v).y == y {
                            let v = choose|v: int|
                                0 <= v < ui + 1 && (#[trigger] pre.post_player(v)).active
                                    && pre.post_player(v).x == x && pre.post_player(v).y == y;
                            assert(v < ui);
                        }
                    }
                }
            }
            u = u + 1;
        }
    }

    /// One rendered frame of the round controller: consume a pending reset
    /// request, then, while the round is running, advance up to SPEED
    /// sub-steps (stopping early once the round ends), and cache the winner
    /// the first frame the round is found ended.
    ///
    /// With a single participant the alive count is already 1 after the
    /// first sub-step's recount, so such a round ends on its very first
    /// frame with the lone player as winner: the literal `at most one
    /// survivor ends the round` rule is kept even for that boundary.
    pub fn step_frame(&mut self)
        requires
            old(self).wf(),
        ensures
            final(self).wf(),
            frame_rel(*old(self), *final(self)),
    {
        let ghost pre = *old(self);
        if self.reset_requested {
            self.reset_round();
        }
        let ghost s0 = *self;
        proof {
            assert(begin_rel(pre, s0));
        }
        let ghost mut tr: Seq<GameState> = seq![s0];
        let mut i: usize = 0;
        while i < SPEED && self.game_running
            invariant
                i <= SPEED,
                self.wf(),
                tr.len() == i + 1,
                tr[0] == s0,
                tr[i as int] == *self,
                trace_ok(tr),
            decreases SPEED - i,
        {
            let ghost mid = *self;
            self.sub_step();
            proof {
                let prev = tr;
                tr = tr.push(*self);
                assert forall|k: int| 0 <= k < tr.len() - 1 implies #[trigger] step_or_stop(
                    tr[k],
                    tr[k + 1],
                ) by {
                    if k < i {
                        assert(tr[k] == prev[k] && tr[k + 1] == prev[k + 1]);
                        assert(step_or_stop(prev[k], prev[k + 1]));
                    } else {
                        assert(tr[k] == mid && tr[k + 1] == *self);
                        assert(mid.game_running && sub_step_rel(mid, *self));
                    }
                }
            }
            i = i + 1;
        }
        proof {
            if i < SPEED {
                // The round stopped early: the remaining sub-steps of the
                // batch change nothing.
                let prev = tr;
                let pad = Seq::<GameState>::new((SPEED - i) as nat, |k: int| *self);
                tr = tr + pad;
                assert(tr.len() == SPEED + 1);
                assert(tr[0] == prev[0]);
                assert(tr[SPEED as int] == *self);
                assert forall|k: int| 0 <= k < tr.len() - 1 implies #[trigger] step_or_stop(
                    tr[k],
                    tr[k + 1],
                ) by {
                    if k < i {
                        assert(tr[k] == prev[k] && tr[k + 1] == prev[k + 1]);
                        assert(step_or_stop(prev[k], prev[k + 1]));
                    } else {
                        assert(tr[k] == *self && tr[k + 1] == *self);
                        assert(!self.game_running);
                    }
                }
            }
            assert(tr.len() == SPEED as nat + 1 && tr[0] == s0 && tr[SPEED as int] == *self
                && trace_ok(tr));
            assert(steps_rel(s0, *self, SPEED as nat));
        }
        let ghost s1 = *self;
        if !self.game_running && !self.winner_resolved {
            let count = self.player_count;
            let mut found: Option<usize> = Option::None;
            let mut u: usize = 0;
            while u < count
                invariant
                    u <= count,
                    count == self.player_count,
                    *self == s1,
                    self.wf(),
                    match found {
                        Option::Some(wi) => wi < count && s1.first_alive_from(0)
                            == Option::Some(wi),
                        Option::None => s1.first_alive_from(0) == s1.first_alive_from(u as int),
                    },
                decreases count - u,
            {
                if found.is_none() && self.players[u].active {
                    found = Option::Some(u);
                }
                u = u + 1;
            }
            proof {
                assert(found == s1.spec_winner());
            }
            self.winner = found;
            self.winner_resolved = true;
        }
        proof {
            assert(resolve_rel(s1, *self));
            assert(begin_rel(pre, s0) && steps_rel(s0, s1, SPEED as nat) && resolve_rel(
                s1,
                *self,
            ));
            assert(frame_rel(pre, *self));
        }
    }

    /// The end screen text: "Player N wins" with the 1-based winner slot,
    /// or "Draw" when every participant was eliminated.
    pub fn winner_message(&self) -> (r: &'static str)
        requires
            self.winner_resolved,
        ensures
            r@ == spec_winner_message(self.winner),
    {
        match self.winner {
            Option::Some(i) => {
                if i == 0 {
                    "Player 1 wins"
                } else if i == 1 {
                    "Player 2 wins"
                } else if i == 2 {
                    "Player 3 wins"
                } else {
                    "Player 4 wins"
                }
            },
            Option::None => "Draw",
        }
    }
}

} // verus!
