//! Coin-chase engine: a player moves in a bounded grid; a coin spawns
//! at a random cell and relocates both on contact and on a timer; each
//! contact scores a point. Timer expiry and the freshly drawn coin
//! cells are plain inputs here; the caller's loop supplies them.
use vstd::prelude::*;

verus! {

/// Smallest player and coin coordinate of the play area.
pub const AREA_MIN: u16 = 2;

/// Largest player coordinate; coins stay strictly below it.
pub const AREA_MAX: u16 = 20;

/// The player position after one movement key, clamped to the play
/// area.
pub open spec fn moved_player(x: u16, y: u16, key: u8) -> (u16, u16) {
    if key == 97 {
        ((if x > AREA_MIN { (x - 1) as u16 } else { x }), y)
    } else if key == 100 {
        ((if x < AREA_MAX { (x + 1) as u16 } else { x }), y)
    } else if key == 119 {
        (x, (if y > AREA_MIN { (y - 1) as u16 } else { y }))
    } else if key == 115 {
        (x, (if y < AREA_MAX { (y + 1) as u16 } else { y }))
    } else {
        (x, y)
    }
}

/// The coin-chase game state.
pub struct CoinGame {
    pub player_x: u16,
    pub player_y: u16,
    pub coin_x: u16,
    pub coin_y: u16,
    pub score: u16,
}

impl CoinGame {
    /// Positions lie inside the play area.
    pub open spec fn wf(self) -> bool {
        &&& AREA_MIN <= self.player_x <= AREA_MAX
        &&& AREA_MIN <= self.player_y <= AREA_MAX
        &&& AREA_MIN <= self.coin_x < AREA_MAX
        &&& AREA_MIN <= self.coin_y < AREA_MAX
    }

    /// A fresh game: the player starts in the corner of the play area,
    /// the first coin wherever the caller drew it.
    pub fn new(coin_x: u16, coin_y: u16) -> (g: CoinGame)
        requires
            AREA_MIN <= coin_x < AREA_MAX,
            AREA_MIN <= coin_y < AREA_MAX,
        ensures
            g.wf(),
            g.player_x == AREA_MIN,
            g.player_y == AREA_MIN,
            g.coin_x == coin_x,
            g.coin_y == coin_y,
            g.score == 0,
    {
        CoinGame { player_x: AREA_MIN, player_y: AREA_MIN, coin_x, coin_y, score: 0 }
    }

    /// Move the player one clamped step for a movement key; any other
    /// key leaves it in place.
    pub fn move_player(&mut self, key: u8)
        requires
            old(self).wf(),
        ensures
            final(self).wf(),
            (final(self).player_x, final(self).player_y) == moved_player(
                old(self).player_x,
                old(self).player_y,
                key,
            ),
            final(self).coin_x == old(self).coin_x,
            final(self).coin_y == old(self).coin_y,
            final(self).score == old(self).score,
    {
        if key == 97 {
            if self.player_x > AREA_MIN {
                self.player_x = self.player_x - 1;
            }
        } else if key == 100 {
            if self.player_x < AREA_MAX {
                self.player_x = self.player_x + 1;
            }
        } else if key == 119 {
            if self.player_y > AREA_MIN {
                self.player_y = self.player_y - 1;
            }
        } else if key == 115 {
            if self.player_y < AREA_MAX {
                self.player_y = self.player_y + 1;
            }
        }
    }

    /// Put the coin on a freshly drawn cell.
    pub fn relocate_coin(&mut self, fresh_x: u16, fresh_y: u16)
        requires
            old(self).wf(),
            AREA_MIN <= fresh_x < AREA_MAX,
            AREA_MIN <= fresh_y < AREA_MAX,
        ensures
            final(self).wf(),
            final(self).coin_x == fresh_x,
            final(self).coin_y == fresh_y,
            final(self).player_x == old(self).player_x,
            final(self).player_y == old(self).player_y,
            final(self).score == old(self).score,
    {
        self.coin_x = fresh_x;
        self.coin_y = fresh_y;
    }

    /// Collect the coin if the player stands on it: the score rises by
    /// exactly one and the coin moves to the freshly drawn cell.
    pub fn try_collect(&mut self, fresh_x: u16, fresh_y: u16) -> (hit: bool)
        requires
            old(self).wf(),
            old(self).score < u16::MAX,
            AREA_MIN <= fresh_x < AREA_MAX,
            AREA_MIN <= fresh_y < AREA_MAX,
        ensures
            final(self).wf(),
            hit == (old(self).player_x == old(self).coin_x && old(self).player_y
                == old(self).coin_y),
            final(self).player_x == old(self).player_x,
            final(self).player_y == old(self).player_y,
            hit ==> final(self).score == old(self).score + 1 && final(self).coin_x == fresh_x
                && final(self).coin_y == fresh_y,
            !hit ==> final(self).score == old(self).score && final(self).coin_x
                == old(self).coin_x && final(self).coin_y == old(self).coin_y,
    {
        if self.player_x == self.coin_x && self.player_y == self.coin_y {
            self.score = self.score + 1;
            self.coin_x = fresh_x;
            self.coin_y = fresh_y;
            true
        } else {
            false
        }
    }

    /// One iteration of the game loop for one input byte: the coin
    /// relocates when its timer expired, a coin under the player is
    /// collected, `q` then ends the game; otherwise the player moves one
    /// clamped step and a coin under the new position is collected too.
    /// The three fresh cells feed the relocations in that order, each
    /// used only when its event fires.
    pub fn step(
        &mut self,
        key: u8,
        timer_expired: bool,
        fresh1: (u16, u16),
        fresh2: (u16, u16),
        fresh3: (u16, u16),
    ) -> (cont: bool)
        requires
            old(self).wf(),
            old(self).score + 2 <= u16::MAX,
            AREA_MIN <= fresh1.0 < AREA_MAX && AREA_MIN <= fresh1.1 < AREA_MAX,
            AREA_MIN <= fresh2.0 < AREA_MAX && AREA_MIN <= fresh2.1 < AREA_MAX,
            AREA_MIN <= fresh3.0 < AREA_MAX && AREA_MIN <= fresh3.1 < AREA_MAX,
        ensures
            final(self).wf(),
            cont == (key != 113),
            ({
                let coin1 = if timer_expired { fresh1 } else { (old(self).coin_x, old(self).coin_y) };
                let pre_hit = old(self).player_x == coin1.0 && old(self).player_y == coin1.1;
                let coin2 = if pre_hit { fresh2 } else { coin1 };
                let moved = moved_player(old(self).player_x, old(self).player_y, key);
                if key == 113 {
                    &&& final(self).player_x == old(self).player_x
                    &&& final(self).player_y == old(self).player_y
                    &&& (final(self).coin_x, final(self).coin_y) == coin2
                    &&& final(self).score == old(self).score + (if pre_hit { 1int } else { 0int })
                } else {
                    let post_hit = moved.0 == coin2.0 && moved.1 == coin2.1;
                    let coin3 = if post_hit { fresh3 } else { coin2 };
                    &&& (final(self).player_x, final(self).player_y) == moved
                    &&& (final(self).coin_x, final(self).coin_y) == coin3
                    &&& final(self).score == old(self).score + (if pre_hit { 1int } else { 0int })
                        + (if post_hit { 1int } else { 0int })
                }
            }),
    {
        if timer_expired {
            self.relocate_coin(fresh1.0, fresh1.1);
        }
        self.try_collect(fresh2.0, fresh2.1);
        if key == 113 {
            return false;
        }
        self.move_player(key);
        self.try_collect(fresh3.0, fresh3.1);
        true
    }
}

} // verus!
