//! Collision detection and deterministic resolution.
//!
//! Each tick, every (player, pickup) pair is tested: a pickup is a point, a
//! player a circle, and they collide when the squared distance is at most
//! the squared radius. Each colliding pickup is awarded to exactly one
//! player: the colliding player with the smallest squared distance, earliest
//! list index breaking exact ties. Consumed pickups are removed with
//! swap-with-last removals walked in descending index order, so an index
//! still to be removed is never invalidated by an earlier removal.

use vstd::prelude::*;
use vstd::multiset::Multiset;
use crate::fixed::{dist_sq, dist_sq_i64};
use crate::game::{
    Player, Pickup, wf_player, wf_pickup, sum_scores, sum_values, lemma_sum_scores_update,
    lemma_sum_values_update,
};

verus! {

/// The circle-versus-point collision test.
pub open spec fn collides(p: Player, q: Pickup) -> bool {
    dist_sq(p.position, q.position) <= p.size * p.size
}

/// Player `i` wins pickup `q` among the first `n` players: it collides, no
/// colliding player among the first `n` is strictly closer, and every
/// earlier colliding player is strictly farther.
pub open spec fn is_winner_upto(players: Seq<Player>, q: Pickup, i: int, n: int) -> bool {
    &&& 0 <= i < n
    &&& collides(players[i], q)
    &&& forall|k: int|
        0 <= k < n && collides(#[trigger] players[k], q) ==> dist_sq(players[i].position, q.position)
            <= dist_sq(players[k].position, q.position)
    &&& forall|k: int|
        0 <= k < i && collides(#[trigger] players[k], q) ==> dist_sq(players[i].position, q.position)
            < dist_sq(players[k].position, q.position)
}

/// Player `i` wins pickup `q`: the closest colliding player, earliest index
/// breaking ties.
pub open spec fn is_winner(players: Seq<Player>, q: Pickup, i: int) -> bool {
    is_winner_upto(players, q, i, players.len() as int)
}

/// The player pickup `q` is awarded to, if any player collides with it.
pub open spec fn winner_of(players: Seq<Player>, q: Pickup) -> Option<int> {
    if exists|i: int| is_winner(players, q, i) {
        Some(choose|i: int| is_winner(players, q, i))
    } else {
        None
    }
}

/// At most one player wins a given pickup.
pub proof fn lemma_winner_unique(players: Seq<Player>, q: Pickup, i: int, k: int)
    requires
        is_winner(players, q, i),
        is_winner(players, q, k),
    ensures
        i == k,
{
    if i < k {
        assert(collides(players[i], q));
        assert(dist_sq(players[k].position, q.position) < dist_sq(players[i].position, q.position));
        assert(dist_sq(players[i].position, q.position) <= dist_sq(players[k].position, q.position));
    } else if k < i {
        assert(collides(players[k], q));
        assert(dist_sq(players[i].position, q.position) < dist_sq(players[k].position, q.position));
        assert(dist_sq(players[k].position, q.position) <= dist_sq(players[i].position, q.position));
    }
}

/// `winner_of` agrees with any demonstrated winner.
pub proof fn lemma_winner_of_is(players: Seq<Player>, q: Pickup, i: int)
    requires
        is_winner(players, q, i),
    ensures
        winner_of(players, q) == Some(i),
{
    let w = choose|j: int| is_winner(players, q, j);
    lemma_winner_unique(players, q, w, i);
}

/// Among any non-empty prefix that contains a collider, a winner exists.
proof fn lemma_exists_winner_upto(players: Seq<Player>, q: Pickup, n: int)
    requires
        0 < n <= players.len(),
        exists|k: int| 0 <= k < n && collides(#[trigger] players[k], q),
    ensures
        exists|i: int| is_winner_upto(players, q, i, n),
    decreases n,
{
    let m = n - 1;
    if exists|k: int| 0 <= k < m && collides(#[trigger] players[k], q) {
        lemma_exists_winner_upto(players, q, m);
        let w = choose|i: int| is_winner_upto(players, q, i, m);
        if collides(players[m], q) && dist_sq(players[m].position, q.position) < dist_sq(
            players[w].position,
            q.position,
        ) {
            assert(is_winner_upto(players, q, m, n));
        } else {
            assert(is_winner_upto(players, q, w, n));
        }
    } else {
        let k = choose|k: int| 0 <= k < n && collides(#[trigger] players[k], q);
        assert(k == m);
        assert(is_winner_upto(players, q, m, n));
    }
}

/// Deterministic winner: if any player collides with a pickup, the pickup
/// has exactly one winner, and that winner's squared distance is minimal
/// among all colliding players.
pub proof fn lemma_deterministic_winner(players: Seq<Player>, q: Pickup, k: int)
    requires
        0 <= k < players.len(),
        collides(players[k], q),
    ensures
        winner_of(players, q) matches Some(w) && {
            &&& 0 <= w < players.len()
            &&& collides(players[w], q)
            &&& forall|j: int|
                0 <= j < players.len() && collides(#[trigger] players[j], q) ==> dist_sq(
                    players[w].position,
                    q.position,
                ) <= dist_sq(players[j].position, q.position)
            &&& forall|j: int| is_winner(players, q, j) ==> j == w
        },
{
    lemma_exists_winner_upto(players, q, players.len() as int);
    let w0 = choose|i: int| is_winner_upto(players, q, i, players.len() as int);
    assert(is_winner(players, q, w0));
    let w = choose|i: int| is_winner(players, q, i);
    lemma_winner_of_is(players, q, w);
    assert forall|j: int| is_winner(players, q, j) implies j == w by {
        lemma_winner_unique(players, q, j, w);
    }
}

/// `base + g`, saturating at the top of `u64`.
pub open spec fn sat_at(base: u64, g: nat) -> u64 {
    if base + g > u64::MAX {
        u64::MAX
    } else {
        (base + g) as u64
    }
}

/// Saturating score addition.
pub fn add_sat(a: u64, v: u64) -> (r: u64)
    ensures
        r == sat_at(a, v as nat),
{
    if a > u64::MAX - v {
        u64::MAX
    } else {
        a + v
    }
}

/// Total value of the pickups in `pickups` that player `i` wins.
pub open spec fn gain(players: Seq<Player>, pickups: Seq<Pickup>, i: int) -> nat
    decreases pickups.len(),
{
    if pickups.len() == 0 {
        0
    } else {
        let rest = gain(players, pickups.drop_last(), i);
        if winner_of(players, pickups.last()) == Some(i) {
            (rest + pickups.last().value) as nat
        } else {
            rest
        }
    }
}

/// Player `i` after resolution: its score grows by its gain, saturating;
/// everything else is untouched.
pub open spec fn credit(players: Seq<Player>, pickups: Seq<Pickup>, i: int) -> Player {
    let p = players[i];
    Player { score: sat_at(p.score, gain(players, pickups, i)), ..p }
}

/// The pickups no player collides with, in their list order.
pub open spec fn survivors(players: Seq<Player>, s: Seq<Pickup>) -> Seq<Pickup>
    decreases s.len(),
{
    if s.len() == 0 {
        Seq::empty()
    } else {
        let rest = survivors(players, s.drop_last());
        if winner_of(players, s.last()) is None {
            rest.push(s.last())
        } else {
            rest
        }
    }
}

/// The pickup list after the removal pass has handled every index at or
/// above `j`, walking downward from the end: a consumed index is removed by
/// swapping the then-last element into its place.
pub open spec fn removal_state(players: Seq<Player>, s0: Seq<Pickup>, j: int) -> Seq<Pickup>
    decreases s0.len() - j,
{
    if j < 0 || j >= s0.len() {
        s0
    } else {
        let prev = removal_state(players, s0, j + 1);
        if winner_of(players, s0[j]) is Some {
            prev.update(j, prev.last()).drop_last()
        } else {
            prev
        }
    }
}

/// Total value of the pickups in `s` that some player wins.
pub open spec fn consumed_value(players: Seq<Player>, s: Seq<Pickup>) -> nat
    decreases s.len(),
{
    if s.len() == 0 {
        0
    } else {
        let rest = consumed_value(players, s.drop_last());
        if winner_of(players, s.last()) is Some {
            (rest + s.last().value) as nat
        } else {
            rest
        }
    }
}

/// Total gain of the first `n` players.
pub open spec fn sum_gains(players: Seq<Player>, pickups: Seq<Pickup>, n: int) -> nat
    decreases n,
{
    if n <= 0 {
        0
    } else {
        (sum_gains(players, pickups, n - 1) + gain(players, pickups, n - 1)) as nat
    }
}

proof fn lemma_sum_gains_empty(players: Seq<Player>, pickups: Seq<Pickup>, n: int)
    requires
        pickups.len() == 0,
    ensures
        sum_gains(players, pickups, n) == 0,
    decreases n,
{
    if n > 0 {
        lemma_sum_gains_empty(players, pickups, n - 1);
    }
}

proof fn lemma_sum_gains_step(players: Seq<Player>, pickups: Seq<Pickup>, n: int)
    requires
        pickups.len() > 0,
    ensures
        sum_gains(players, pickups, n) == sum_gains(players, pickups.drop_last(), n) + (
        match winner_of(players, pickups.last()) {
            Some(w) => if 0 <= w < n {
                pickups.last().value as nat
            } else {
                0
            },
            None => 0,
        }),
    decreases n,
{
    if n > 0 {
        lemma_sum_gains_step(players, pickups, n - 1);
    }
}

/// No pickup's value is credited twice: across all players, one round of
/// gains adds up to exactly the value of the consumed pickups — each
/// consumed pickup counted once, each surviving pickup not at all.
pub proof fn lemma_gains_account_consumed(players: Seq<Player>, pickups: Seq<Pickup>)
    ensures
        sum_gains(players, pickups, players.len() as int) == consumed_value(players, pickups),
    decreases pickups.len(),
{
    let n = players.len() as int;
    if pickups.len() == 0 {
        lemma_sum_gains_empty(players, pickups, n);
    } else {
        lemma_gains_account_consumed(players, pickups.drop_last());
        lemma_sum_gains_step(players, pickups, n);
        if winner_of(players, pickups.last()) is Some {
            let i = choose|i: int| is_winner(players, pickups.last(), i);
            assert(is_winner(players, pickups.last(), i));
            assert(winner_of(players, pickups.last()) == Some(i));
            assert(0 <= i < n);
        }
    }
}

/// Splitting a pickup list splits its survivors and its consumed value.
pub proof fn lemma_split(players: Seq<Player>, a: Seq<Pickup>, b: Seq<Pickup>)
    ensures
        survivors(players, a + b) == survivors(players, a) + survivors(players, b),
        consumed_value(players, a + b) == consumed_value(players, a) + consumed_value(players, b),
    decreases b.len(),
{
    if b.len() == 0 {
        assert(a + b =~= a);
        assert(survivors(players, a) + survivors(players, b) =~= survivors(players, a));
    } else {
        assert((a + b).drop_last() =~= a + b.drop_last());
        lemma_split(players, a, b.drop_last());
        assert((a + b).last() == b.last());
        if winner_of(players, b.last()) is None {
            assert((survivors(players, a) + survivors(players, b.drop_last())).push(b.last())
                =~= survivors(players, a) + survivors(players, b.drop_last()).push(b.last()));
        }
    }
}

/// Replacing one element of a sequence swaps its contribution in the
/// corresponding multiset.
proof fn lemma_update_multiset(s: Seq<Pickup>, j: int, x: Pickup)
    requires
        0 <= j < s.len(),
    ensures
        s.update(j, x).to_multiset() =~= s.to_multiset().remove(s[j]).insert(x),
    decreases s.len(),
{
    broadcast use vstd::seq_lib::group_to_multiset_ensures;

    if j == s.len() - 1 {
        assert(s.update(j, x) =~= s.drop_last().push(x));
        assert(s.drop_last().push(s.last()) =~= s);
    } else {
        lemma_update_multiset(s.drop_last(), j, x);
        assert(s.update(j, x) =~= s.drop_last().update(j, x).push(s.last()));
        assert(s.drop_last().push(s.last()) =~= s);
    }
}

/// Inserting the same element into two multisets preserves their equality
/// in both directions.
proof fn lemma_insert_cancel(a: Multiset<Pickup>, b: Multiset<Pickup>, x: Pickup)
    requires
        a.insert(x) =~= b.insert(x),
    ensures
        a =~= b,
{
    broadcast use vstd::multiset::group_multiset_axioms;

    assert forall|e: Pickup| a.count(e) == b.count(e) by {
        assert(a.insert(x).count(e) == b.insert(x).count(e));
        assert(a.insert(x).count(e) == a.count(e) + Multiset::singleton(x).count(e));
        assert(b.insert(x).count(e) == b.count(e) + Multiset::singleton(x).count(e));
    }
    assert(a =~= b);
}

/// A swap-with-last removal at `j` removes exactly the element at `j` from
/// the multiset of a sequence.
proof fn lemma_swap_remove_multiset(s: Seq<Pickup>, j: int)
    requires
        0 <= j < s.len(),
    ensures
        s.update(j, s.last()).drop_last().to_multiset() =~= s.to_multiset().remove(s[j]),
{
    broadcast use vstd::seq_lib::group_to_multiset_ensures;
    broadcast use vstd::multiset::group_multiset_axioms;

    let u = s.update(j, s.last());
    lemma_update_multiset(s, j, s.last());
    assert(u.to_multiset() =~= s.to_multiset().remove(s[j]).insert(s.last()));
    assert(u.drop_last().push(u.last()) =~= u);
    assert(u.drop_last().push(u.last()).to_multiset() =~= u.drop_last().to_multiset().insert(
        u.last(),
    ));
    assert(u.last() == s.last());
    assert(u.drop_last().to_multiset().insert(s.last()) =~= s.to_multiset().remove(s[j]).insert(
        s.last(),
    ));
    assert(s.to_multiset().count(s[j]) > 0) by {
        assert(s =~= s.take(j).push(s[j]) + s.skip(j + 1));
        vstd::seq_lib::lemma_multiset_commutative(s.take(j).push(s[j]), s.skip(j + 1));
        assert(s.take(j).push(s[j]).to_multiset() =~= s.take(j).to_multiset().insert(s[j]));
        assert(s.take(j).to_multiset().insert(s[j]).count(s[j]) == s.take(j).to_multiset().count(
            s[j],
        ) + 1);
    }
    lemma_insert_cancel(u.drop_last().to_multiset(), s.to_multiset().remove(s[j]), s.last());
}

/// What is consumed and what survives together account for every value.
pub proof fn lemma_conservation_split(players: Seq<Player>, s: Seq<Pickup>)
    ensures
        consumed_value(players, s) + sum_values(survivors(players, s)) == sum_values(s),
    decreases s.len(),
{
    if s.len() > 0 {
        lemma_conservation_split(players, s.drop_last());
        if winner_of(players, s.last()) is None {
            crate::game::lemma_sum_values_push(survivors(players, s.drop_last()), s.last());
        }
    }
}

/// `o` is `winner_of(players, q)`, with its index carried as a `usize`.
pub open spec fn winner_opt_matches(players: Seq<Player>, q: Pickup, o: Option<usize>) -> bool {
    match o {
        Some(i) => winner_of(players, q) == Some(i as int),
        None => winner_of(players, q) is None,
    }
}

/// Scan all players for the winner of pickup `q`: the closest collider,
/// earliest index breaking ties.
pub fn find_winner(players: &Vec<Player>, q: &Pickup) -> (r: Option<usize>)
    requires
        forall|i: int| 0 <= i < players@.len() ==> wf_player(#[trigger] players@[i]),
        wf_pickup(*q),
    ensures
        winner_opt_matches(players@, *q, r),
{
    let ghost ps = players@;
    let mut best: Option<usize> = None;
    let mut best_d2: i64 = 0;
    let n = players.len();
    let mut i: usize = 0;
    while i < n
        invariant
            ps == players@,
            n == ps.len(),
            i <= n,
            forall|k: int| 0 <= k < ps.len() ==> wf_player(#[trigger] ps[k]),
            wf_pickup(*q),
            match best {
                None => forall|k: int| 0 <= k < i ==> !collides(#[trigger] ps[k], *q),
                Some(b) => {
                    &&& (b as int) < i
                    &&& collides(ps[b as int], *q)
                    &&& best_d2 == dist_sq(ps[b as int].position, q.position)
                    &&& forall|k: int|
                        0 <= k < i && collides(#[trigger] ps[k], *q) ==> best_d2 <= dist_sq(
                            ps[k].position,
                            q.position,
                        )
                    &&& forall|k: int|
                        0 <= k < b && collides(#[trigger] ps[k], *q) ==> best_d2 < dist_sq(
                            ps[k].position,
                            q.position,
                        )
                },
            },
        decreases n - i,
    {
        let p = players[i];
        let d2 = dist_sq_i64(p.position, q.position);
        proof {
            assert(p.size * p.size <= 1_000_000_000_000 && p.size * p.size >= 0)
                by (nonlinear_arith)
                requires
                    0 <= p.size <= 1_000_000,
            ;
        }
        let r2 = p.size * p.size;
        if d2 <= r2 {
            match best {
                None => {
                    best = Some(i);
                    best_d2 = d2;
                },
                Some(_) => {
                    if d2 < best_d2 {
                        best = Some(i);
                        best_d2 = d2;
                    }
                },
            }
        }
        i += 1;
    }
    proof {
        match best {
            Some(b) => {
                assert(is_winner(ps, *q, b as int));
                lemma_winner_of_is(ps, *q, b as int);
            },
            None => {
                assert(forall|j: int| !is_winner(ps, *q, j));
            },
        }
    }
    best
}

/// Decide every pickup's winner against the current player bodies.
fn compute_winners(players: &Vec<Player>, pickups: &Vec<Pickup>) -> (w: Vec<Option<usize>>)
    requires
        forall|i: int| 0 <= i < players@.len() ==> wf_player(#[trigger] players@[i]),
        forall|j: int| 0 <= j < pickups@.len() ==> wf_pickup(#[trigger] pickups@[j]),
    ensures
        w@.len() == pickups@.len(),
        forall|j: int|
            0 <= j < pickups@.len() ==> winner_opt_matches(players@, pickups@[j], #[trigger] w@[j]),
{
    let mut w: Vec<Option<usize>> = Vec::new();
    let n = pickups.len();
    let mut j: usize = 0;
    while j < n
        invariant
            n == pickups@.len(),
            j <= n,
            w@.len() == j,
            forall|i: int| 0 <= i < players@.len() ==> wf_player(#[trigger] players@[i]),
            forall|k: int| 0 <= k < pickups@.len() ==> wf_pickup(#[trigger] pickups@[k]),
            forall|k: int|
                0 <= k < j ==> winner_opt_matches(players@, pickups@[k], #[trigger] w@[k]),
        decreases n - j,
    {
        let r = find_winner(players, &pickups[j]);
        w.push(r);
        j += 1;
    }
    w
}

/// Award every decided pickup's value to its winner, saturating at the top
/// of `u64`. Positions, sizes, speeds and joysticks are untouched.
fn apply_credits(players: &mut Vec<Player>, pickups: &Vec<Pickup>, winners: &Vec<Option<usize>>)
    requires
        winners@.len() == pickups@.len(),
        forall|j: int|
            0 <= j < pickups@.len() ==> winner_opt_matches(
                old(players)@,
                pickups@[j],
                #[trigger] winners@[j],
            ),
    ensures
        final(players)@.len() == old(players)@.len(),
        forall|i: int|
            0 <= i < old(players)@.len() ==> final(players)@[i] == credit(
                old(players)@,
                pickups@,
                i,
            ),
        sum_scores(final(players)@) <= sum_scores(old(players)@) + consumed_value(
            old(players)@,
            pickups@,
        ),
{
    let ghost p0 = old(players)@;
    let ghost qs = pickups@;
    let n = winners.len();
    let mut j: usize = 0;
    proof {
        assert(qs.take(0) =~= Seq::<Pickup>::empty());
    }
    while j < n
        invariant
            n == winners@.len(),
            n == qs.len(),
            qs == pickups@,
            j <= n,
            players@.len() == p0.len(),
            forall|k: int|
                0 <= k < qs.len() ==> winner_opt_matches(p0, qs[k], #[trigger] winners@[k]),
            forall|i: int|
                0 <= i < p0.len() ==> #[trigger] players@[i] == (Player {
                    score: sat_at(p0[i].score, gain(p0, qs.take(j as int), i)),
                    ..p0[i]
                }),
            sum_scores(players@) <= sum_scores(p0) + consumed_value(p0, qs.take(j as int)),
        decreases n - j,
    {
        let ghost pre = players@;
        proof {
            assert(qs.take(j + 1).drop_last() =~= qs.take(j as int));
            assert(qs.take(j + 1).last() == qs[j as int]);
        }
        match winners[j] {
            Some(w) => {
                proof {
                    assert(winner_of(p0, qs[j as int]) == Some(w as int));
                    assert(is_winner(p0, qs[j as int], choose|i: int| is_winner(p0, qs[j as int], i)));
                }
                let p = players[w];
                let v = pickups[j].value;
                let np = Player { score: add_sat(p.score, v), ..p };
                proof {
                    lemma_sum_scores_update(players@, w as int, np);
                }
                players[w] = np;
                proof {
                    assert forall|i: int| 0 <= i < p0.len() implies #[trigger] players@[i]
                        == (Player {
                        score: sat_at(p0[i].score, gain(p0, qs.take(j + 1), i)),
                        ..p0[i]
                    }) by {
                        if i == w as int {
                            assert(gain(p0, qs.take(j + 1), i) == gain(p0, qs.take(j as int), i)
                                + qs[j as int].value);
                            assert(sat_at(sat_at(p0[i].score, gain(p0, qs.take(j as int), i)),
                                v as nat) == sat_at(p0[i].score, gain(p0, qs.take(j + 1), i)));
                        } else {
                            assert(gain(p0, qs.take(j + 1), i) == gain(p0, qs.take(j as int), i));
                            assert(players@[i] == pre[i]);
                        }
                    }
                }
            },
            None => {
                proof {
                    assert forall|i: int| 0 <= i < p0.len() implies #[trigger] players@[i]
                        == (Player {
                        score: sat_at(p0[i].score, gain(p0, qs.take(j + 1), i)),
                        ..p0[i]
                    }) by {
                        assert(gain(p0, qs.take(j + 1), i) == gain(p0, qs.take(j as int), i));
                    }
                }
            },
        }
        j += 1;
    }
    proof {
        assert(qs.take(n as int) =~= qs);
    }
}

/// Drop every consumed pickup with a swap-with-last removal, walking the
/// indices in descending order so a pending removal index is never
/// invalidated by one already done.
fn remove_consumed(
    pickups: &mut Vec<Pickup>,
    winners: &Vec<Option<usize>>,
    Ghost(p0): Ghost<Seq<Player>>,
)
    requires
        winners@.len() == old(pickups)@.len(),
        forall|j: int|
            0 <= j < old(pickups)@.len() ==> winner_opt_matches(
                p0,
                old(pickups)@[j],
                #[trigger] winners@[j],
            ),
        forall|j: int| 0 <= j < old(pickups)@.len() ==> wf_pickup(#[trigger] old(pickups)@[j]),
    ensures
        final(pickups)@ == removal_state(p0, old(pickups)@, 0),
        final(pickups)@.to_multiset() == survivors(p0, old(pickups)@).to_multiset(),
        final(pickups)@.len() == survivors(p0, old(pickups)@).len(),
        sum_values(final(pickups)@) == sum_values(survivors(p0, old(pickups)@)),
        forall|j: int| 0 <= j < final(pickups)@.len() ==> wf_pickup(#[trigger] final(pickups)@[j]),
        (forall|j: int|
            0 <= j < old(pickups)@.len() ==> winner_of(p0, #[trigger] old(pickups)@[j]) is None)
            ==> final(pickups)@ == old(pickups)@,
{
    let ghost qs0 = old(pickups)@;
    let n = pickups.len();
    let mut j: usize = n;
    proof {
        assert(qs0.skip(n as int) =~= Seq::<Pickup>::empty());
        assert(qs0.take(n as int) =~= qs0);
        assert(removal_state(p0, qs0, n as int) == qs0);
        broadcast use vstd::seq_lib::group_to_multiset_ensures;

    }
    while j > 0
        invariant
            n == winners@.len(),
            n == qs0.len(),
            j <= n,
            forall|k: int| 0 <= k < qs0.len() ==> winner_opt_matches(p0, qs0[k], #[trigger] winners@[k]),
            forall|k: int| 0 <= k < qs0.len() ==> wf_pickup(#[trigger] qs0[k]),
            forall|k: int| 0 <= k < pickups@.len() ==> wf_pickup(#[trigger] pickups@[k]),
            pickups@.len() == j + survivors(p0, qs0.skip(j as int)).len(),
            pickups@.take(j as int) == qs0.take(j as int),
            pickups@.to_multiset() == qs0.take(j as int).to_multiset().add(
                survivors(p0, qs0.skip(j as int)).to_multiset(),
            ),
            sum_values(pickups@) == sum_values(qs0.take(j as int)) + sum_values(
                survivors(p0, qs0.skip(j as int)),
            ),
            (forall|k: int| 0 <= k < qs0.len() ==> winner_of(p0, #[trigger] qs0[k]) is None)
                ==> pickups@ == qs0,
            pickups@ == removal_state(p0, qs0, j as int),
        decreases j,
    {
        broadcast use vstd::seq_lib::group_to_multiset_ensures;

        j = j - 1;
        let ghost pre = pickups@;
        proof {
            let single: Seq<Pickup> = seq![qs0[j as int]];
            assert(qs0.skip(j as int) =~= single + qs0.skip(j + 1));
            lemma_split(p0, single, qs0.skip(j + 1));
            assert(single.drop_last() =~= Seq::<Pickup>::empty());
            assert(survivors(p0, Seq::<Pickup>::empty()) =~= Seq::<Pickup>::empty());
            assert(single.last() == qs0[j as int]);
            if winner_of(p0, qs0[j as int]) is None {
                assert(survivors(p0, single) =~= Seq::<Pickup>::empty().push(qs0[j as int]));
                assert(survivors(p0, single) =~= single);
            } else {
                assert(survivors(p0, single) =~= Seq::<Pickup>::empty());
            }
            assert(qs0.take(j + 1).drop_last() =~= qs0.take(j as int));
            assert(qs0.take(j + 1) =~= qs0.take(j as int).push(qs0[j as int]));
            crate::game::lemma_sum_values_push(qs0.take(j as int), qs0[j as int]);
            assert(pre[j as int] == qs0[j as int]);
        }
        let consumed = match winners[j] {
            Some(_) => true,
            None => false,
        };
        proof {
            assert(winner_opt_matches(p0, qs0[j as int], winners@[j as int]));
            assert(consumed <==> winner_of(p0, qs0[j as int]) is Some);
            assert(removal_state(p0, qs0, j + 1) == pre);
        }
        proof {
            assert(qs0.take(j + 1).to_multiset() =~= qs0.take(j as int).to_multiset().insert(
                qs0[j as int],
            )) by {
                assert(qs0.take(j as int).push(qs0[j as int]).to_multiset() =~= qs0.take(
                    j as int,
                ).to_multiset().insert(qs0[j as int]));
            }
            vstd::seq_lib::lemma_multiset_commutative(seq![qs0[j as int]], qs0.skip(j + 1));
            assert(survivors(p0, qs0.skip(j as int)).to_multiset() =~= survivors(
                p0,
                seq![qs0[j as int]],
            ).to_multiset().add(survivors(p0, qs0.skip(j + 1)).to_multiset())) by {
                vstd::seq_lib::lemma_multiset_commutative(
                    survivors(p0, seq![qs0[j as int]]),
                    survivors(p0, qs0.skip(j + 1)),
                );
            }
        }
        if consumed {
            proof {
                lemma_swap_remove_multiset(pre, j as int);
            }
            let _ = pickups.swap_remove(j);
            proof {
                assert(pickups@.take(j as int) =~= qs0.take(j as int));
                assert(pickups@.to_multiset() =~= pre.to_multiset().remove(pre[j as int]));
                assert(survivors(p0, qs0.skip(j as int)) =~= survivors(p0, qs0.skip(j + 1)));
                assert forall|e: Pickup|
                    pickups@.to_multiset().count(e) == qs0.take(j as int).to_multiset().add(
                        survivors(p0, qs0.skip(j as int)).to_multiset(),
                    ).count(e) by {
                    assert(pre.to_multiset().count(e) == qs0.take(j + 1).to_multiset().count(e)
                        + survivors(p0, qs0.skip(j + 1)).to_multiset().count(e));
                    assert(qs0.take(j + 1).to_multiset().count(e) == qs0.take(
                        j as int,
                    ).to_multiset().count(e) + Multiset::singleton(qs0[j as int]).count(e));
                    assert(qs0.take(j + 1).to_multiset().count(qs0[j as int]) >= 1);
                }
                assert(pickups@.to_multiset() =~= qs0.take(j as int).to_multiset().add(
                    survivors(p0, qs0.skip(j as int)).to_multiset(),
                ));
                crate::game::lemma_sum_values_update(pre, j as int, pre.last());
                assert(sum_values(pre.update(j as int, pre.last())) == sum_values(pre)
                    + pre.last().value - pre[j as int].value);
                assert(pre.update(j as int, pre.last()).drop_last().push(pre.last()) =~= pre.update(
                    j as int,
                    pre.last(),
                ));
                crate::game::lemma_sum_values_push(pickups@, pre.last());
                assert(removal_state(p0, qs0, j as int) == pre.update(
                    j as int,
                    pre.last(),
                ).drop_last());
            }
        } else {
            proof {
                assert(survivors(p0, qs0.skip(j as int)) == seq![qs0[j as int]] + survivors(
                    p0,
                    qs0.skip(j + 1),
                ));
                assert forall|e: Pickup|
                    pickups@.to_multiset().count(e) == qs0.take(j as int).to_multiset().add(
                        survivors(p0, qs0.skip(j as int)).to_multiset(),
                    ).count(e) by {
                    assert(pre.to_multiset().count(e) == qs0.take(j + 1).to_multiset().count(e)
                        + survivors(p0, qs0.skip(j + 1)).to_multiset().count(e));
                    assert(qs0.take(j + 1).to_multiset().count(e) == qs0.take(
                        j as int,
                    ).to_multiset().count(e) + Multiset::singleton(qs0[j as int]).count(e));
                    assert(survivors(p0, qs0.skip(j as int)).to_multiset().count(e) == Multiset::singleton(
                        qs0[j as int],
                    ).count(e) + survivors(p0, qs0.skip(j + 1)).to_multiset().count(e)) by {
                        assert(seq![qs0[j as int]].to_multiset() =~= Multiset::<
                            Pickup,
                        >::empty().insert(qs0[j as int])) by {
                            assert(seq![qs0[j as int]] =~= Seq::<Pickup>::empty().push(
                                qs0[j as int],
                            ));
                            assert(Seq::<Pickup>::empty().push(qs0[j as int]).to_multiset()
                                =~= Seq::<Pickup>::empty().to_multiset().insert(qs0[j as int]));
                        }
                    }
                }
                assert(pickups@.to_multiset() =~= qs0.take(j as int).to_multiset().add(
                    survivors(p0, qs0.skip(j as int)).to_multiset(),
                ));
                crate::game::lemma_sum_values_add(
                    seq![qs0[j as int]],
                    survivors(p0, qs0.skip(j + 1)),
                );
                assert(sum_values(seq![qs0[j as int]]) == qs0[j as int].value) by {
                    assert(seq![qs0[j as int]].drop_last() =~= Seq::<Pickup>::empty());
                    assert(sum_values(Seq::<Pickup>::empty()) == 0);
                }
                assert(removal_state(p0, qs0, j as int) == pre);
            }
        }
    }
    proof {
        assert(qs0.take(0) =~= Seq::<Pickup>::empty());
        assert(qs0.skip(0) =~= qs0);
        assert(pickups@.to_multiset() =~= survivors(p0, qs0).to_multiset());
    }
}

/// Resolve one tick's collisions: decide every pickup's winner against the
/// current player bodies, credit each winner with the pickup's value
/// (saturating), and remove the consumed pickups with descending
/// swap-with-last removals. At most one player is credited per pickup, and
/// the outcome is a function of the lists alone.
pub fn resolve_collisions(players: &mut Vec<Player>, pickups: &mut Vec<Pickup>)
    requires
        forall|i: int| 0 <= i < old(players)@.len() ==> wf_player(#[trigger] old(players)@[i]),
        forall|j: int| 0 <= j < old(pickups)@.len() ==> wf_pickup(#[trigger] old(pickups)@[j]),
    ensures
        final(players)@.len() == old(players)@.len(),
        forall|i: int|
            0 <= i < old(players)@.len() ==> final(players)@[i] == credit(
                old(players)@,
                old(pickups)@,
                i,
            ),
        final(pickups)@ == removal_state(old(players)@, old(pickups)@, 0),
        final(pickups)@.to_multiset() == survivors(old(players)@, old(pickups)@).to_multiset(),
        final(pickups)@.len() == survivors(old(players)@, old(pickups)@).len(),
        sum_scores(final(players)@) + sum_values(final(pickups)@) <= sum_scores(old(players)@)
            + sum_values(old(pickups)@),
        forall|i: int| 0 <= i < final(players)@.len() ==> wf_player(#[trigger] final(players)@[i]),
        forall|j: int| 0 <= j < final(pickups)@.len() ==> wf_pickup(#[trigger] final(pickups)@[j]),
        (forall|j: int|
            0 <= j < old(pickups)@.len() ==> winner_of(old(players)@, #[trigger] old(
                pickups,
            )@[j]) is None) ==> final(pickups)@ == old(pickups)@,
{
    let winners = compute_winners(players, pickups);
    apply_credits(players, pickups, &winners);
    remove_consumed(pickups, &winners, Ghost(old(players)@));
    proof {
        lemma_conservation_split(old(players)@, old(pickups)@);
        assert forall|i: int| 0 <= i < players@.len() implies wf_player(#[trigger] players@[i]) by {
            assert(players@[i] == credit(old(players)@, old(pickups)@, i));
        }
    }
}

} // verus!
