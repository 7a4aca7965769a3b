use vstd::prelude::*;
use crate::player::Player;
use crate::round::GameState;
use crate::round::SPEED;
use crate::round::alive_count;
use crate::round::begin_rel;
use crate::round::frame_rel;
use crate::round::resolve_rel;
use crate::round::step_or_stop;
use crate::round::steps_rel;
use crate::round::sub_step_rel;
use crate::round::trace_ok;

verus! {

/// Law (monotonic claims): one sub-step never unclaims a cell.
pub proof fn lemma_sub_step_claims_monotonic(pre: GameState, post: GameState)
    requires
        sub_step_rel(pre, post),
    ensures
        post.width == pre.width,
        post.height == pre.height,
        forall|x: int, y: int|
            0 <= x < pre.width && 0 <= y < pre.height && pre.grid.claimed(x, y)
                ==> #[trigger] post.grid.claimed(x, y),
{
}

/// Along a frame trace the dimensions never change and claims only grow.
proof fn lemma_trace_claims_monotonic(tr: Seq<GameState>, k: int)
    requires
        trace_ok(tr),
        0 <= k < tr.len(),
    ensures
        tr[k].width == tr[0].width,
        tr[k].height == tr[0].height,
        forall|x: int, y: int|
            0 <= x < tr[0].width && 0 <= y < tr[0].height && tr[0].grid.claimed(x, y)
                ==> #[trigger] tr[k].grid.claimed(x, y),
    decreases k,
{
    if k > 0 {
        lemma_trace_claims_monotonic(tr, k - 1);
        let j = k - 1;
        assert(step_or_stop(tr[j], tr[j + 1]));
        if tr[k - 1].game_running {
            lemma_sub_step_claims_monotonic(tr[k - 1], tr[k]);
        }
    }
}

/// Law (monotonic claims): within a round, no batch of sub-steps unclaims a
/// cell.
pub proof fn lemma_steps_claims_monotonic(pre: GameState, post: GameState, n: nat)
    requires
        steps_rel(pre, post, n),
    ensures
        post.width == pre.width,
        post.height == pre.height,
        forall|x: int, y: int|
            0 <= x < pre.width && 0 <= y < pre.height && pre.grid.claimed(x, y)
                ==> #[trigger] post.grid.claimed(x, y),
{
    let tr = choose|tr: Seq<GameState>|
        #![trigger trace_ok(tr)]
        tr.len() == n + 1 && tr[0] == pre && tr[n as int] == post && trace_ok(tr);
    lemma_trace_claims_monotonic(tr, n as int);
}

/// Law (monotonic claims): once a cell is claimed, no frame without a
/// pending reset request unclaims it; only a reset clears the grid.
pub proof fn lemma_frame_claims_monotonic(pre: GameState, post: GameState)
    requires
        frame_rel(pre, post),
        !pre.reset_requested,
    ensures
        post.width == pre.width,
        post.height == pre.height,
        forall|x: int, y: int|
            0 <= x < pre.width && 0 <= y < pre.height && pre.grid.claimed(x, y)
                ==> #[trigger] post.grid.claimed(x, y),
{
    let (s0, s1) = choose|s0: GameState, s1: GameState|
        begin_rel(pre, s0) && #[trigger] steps_rel(s0, s1, SPEED as nat) && resolve_rel(s1, post);
    assert(s0 == pre);
    lemma_steps_claims_monotonic(s0, s1, SPEED as nat);
    assert(post.grid == s1.grid);
}

/// The number of alive slots counted over the roster a sub-step leaves
/// behind equals the pre-state's count after its collision pass.
proof fn lemma_alive_counts_agree(pre: GameState, players: Seq<Player>, n: int)
    requires
        forall|i: int| 0 <= i < n ==> players[i] == pre.post_player(i),
    ensures
        pre.alive_after(n) == alive_count(players, n),
    decreases n,
{
    if n > 0 {
        lemma_alive_counts_agree(pre, players, n - 1);
    }
}

/// Law (at most one survivor): a sub-step leaves the round running only
/// when at least two participants are still alive.
pub proof fn lemma_sub_step_survivors(pre: GameState, post: GameState)
    requires
        sub_step_rel(pre, post),
        post.game_running,
    ensures
        alive_count(post.players@, post.player_count as int) >= 2,
{
    lemma_alive_counts_agree(pre, post.players@, pre.player_count as int);
}

/// Law (at most one survivor): a batch of at least one sub-step leaves the
/// round running only when at least two participants are still alive.
pub proof fn lemma_steps_survivors(pre: GameState, post: GameState, n: nat)
    requires
        steps_rel(pre, post, n),
        n > 0,
        post.game_running,
    ensures
        alive_count(post.players@, post.player_count as int) >= 2,
{
    let tr = choose|tr: Seq<GameState>|
        #![trigger trace_ok(tr)]
        tr.len() == n + 1 && tr[0] == pre && tr[n as int] == post && trace_ok(tr);
    let j = n - 1;
    assert(step_or_stop(tr[j], tr[j + 1]));
    assert(tr[j + 1] == post);
    assert(tr[j].game_running);
    lemma_sub_step_survivors(tr[j], post);
}

/// Law (at most one survivor): a frame never leaves the round running with
/// fewer than two alive participants.
pub proof fn lemma_frame_survivors(pre: GameState, post: GameState)
    requires
        frame_rel(pre, post),
        post.game_running,
    ensures
        alive_count(post.players@, post.player_count as int) >= 2,
{
    let (s0, s1) = choose|s0: GameState, s1: GameState|
        begin_rel(pre, s0) && #[trigger] steps_rel(s0, s1, SPEED as nat) && resolve_rel(s1, post);
    assert(s1.game_running && s1.players == post.players && s1.player_count == post.player_count);
    lemma_steps_survivors(s0, s1, SPEED as nat);
}

/// A frame trace that starts with the round stopped never moves.
proof fn lemma_trace_stopped(tr: Seq<GameState>, k: int)
    requires
        trace_ok(tr),
        0 <= k < tr.len(),
        !tr[0].game_running,
    ensures
        tr[k] == tr[0],
    decreases k,
{
    if k > 0 {
        lemma_trace_stopped(tr, k - 1);
        let j = k - 1;
        assert(step_or_stop(tr[j], tr[j + 1]));
    }
}

/// Law (winner stability): once the round has ended and the winner is
/// cached, every further frame without a reset request leaves the whole
/// state, the cached winner included, exactly as it was.
pub proof fn lemma_winner_stable(pre: GameState, post: GameState)
    requires
        frame_rel(pre, post),
        !pre.reset_requested,
        !pre.game_running,
        pre.winner_resolved,
    ensures
        post == pre,
{
    let (s0, s1) = choose|s0: GameState, s1: GameState|
        begin_rel(pre, s0) && #[trigger] steps_rel(s0, s1, SPEED as nat) && resolve_rel(s1, post);
    assert(s0 == pre);
    let tr = choose|tr: Seq<GameState>|
        #![trigger trace_ok(tr)]
        tr.len() == SPEED as nat + 1 && tr[0] == s0 && tr[SPEED as int] == s1 && trace_ok(tr);
    lemma_trace_stopped(tr, SPEED as int);
    assert(s1 == pre);
}

} // verus!
