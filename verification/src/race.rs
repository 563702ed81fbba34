//! Racer engine: N racers advance along parallel lanes by a freshly
//! rolled speed each tick; the first to reach the finish line ends the
//! round, and the result is every racer sorted by descending position,
//! ties broken by starting order.
use vstd::prelude::*;

verus! {

broadcast use vstd::seq_lib::lemma_seq_contains;

/// The glyphs a racer can be drawn with.
pub open spec fn glyph_list() -> Seq<char> {
    seq!['\u{1F425}', '\u{1F436}', '\u{1F437}', '@', '\u{1F603}', '\u{1F4A9}', '\u{1F40C}', '\u{1F980}', '\u{1F31C}', '\u{1F47A}']
}

/// The single-digit name of the racer in lane slot `i`: `'1'` for the
/// first racer, and so on.
pub open spec fn digit_name(i: int) -> char {
    ((49 + i) as u8) as char
}

/// Relies on rand::Rng::gen_range on rand::thread_rng: a value drawn
/// from the non-empty half-open range.
#[verifier::external_body]
fn random_in_range(lo: u16, hi: u16) -> (r: u16)
    requires
        lo < hi,
    ensures
        lo <= r < hi,
{
    rand::Rng::gen_range(&mut rand::thread_rng(), std::ops::Range { start: lo, end: hi })
}

/// Relies on rand::seq::SliceRandom::choose: Some of an element of the
/// slice when it is non-empty, None when it is empty.
#[verifier::external_body]
fn choose_glyph(opts: &Vec<char>) -> (r: Option<char>)
    ensures
        opts@.len() > 0 ==> r is Some && opts@.contains(r->0),
        opts@.len() == 0 ==> r is None,
{
    rand::seq::SliceRandom::choose(opts.as_slice(), &mut rand::thread_rng()).copied()
}

/// The glyphs a racer can be drawn with, as a vector.
fn racer_glyphs() -> (r: Vec<char>)
    ensures
        r@ == glyph_list(),
{
    let mut v: Vec<char> = Vec::new();
    v.push('\u{1F425}');
    v.push('\u{1F436}');
    v.push('\u{1F437}');
    v.push('@');
    v.push('\u{1F603}');
    v.push('\u{1F4A9}');
    v.push('\u{1F40C}');
    v.push('\u{1F980}');
    v.push('\u{1F31C}');
    v.push('\u{1F47A}');
    proof {
        assert(v@ =~= glyph_list());
    }
    v
}

/// One racer: its render glyph, single-character name, current
/// position, last rolled speed, and lane row.
pub struct Racer {
    pub racer_type: char,
    pub name: char,
    pub pos: u16,
    pub speed: u16,
    pub line_num: u16,
}

impl Racer {
    /// A fresh racer at the starting line, with a randomly chosen glyph.
    pub fn new(name: char, line_num: u16) -> (r: Racer)
        ensures
            r.name == name,
            r.line_num == line_num,
            r.pos == 1,
            r.speed == 1,
            glyph_list().contains(r.racer_type),
    {
        let glyphs: Vec<char> = racer_glyphs();
        let racer_type: char = match choose_glyph(&glyphs) {
            Some(c) => c,
            None => '@',
        };
        Racer { racer_type, name, pos: 1, speed: 1, line_num }
    }

    /// One tick: re-roll the speed within its small bounded range and
    /// advance by it.
    pub fn run(&mut self)
        requires
            old(self).pos <= u16::MAX - 7,
        ensures
            1 <= final(self).speed < 8,
            final(self).pos == old(self).pos + final(self).speed,
            old(self).pos < final(self).pos <= old(self).pos + 7,
            final(self).name == old(self).name,
            final(self).racer_type == old(self).racer_type,
            final(self).line_num == old(self).line_num,
    {
        self.speed = random_in_range(1, 8);
        self.pos = self.pos + self.speed;
    }
}

/// Racer `i` finishes ahead of racer `j`: a strictly larger position,
/// or the same position and the earlier starting slot.
pub open spec fn rank_precedes(rs: Seq<Racer>, i: int, j: int) -> bool {
    rs[i].pos > rs[j].pos || (rs[i].pos == rs[j].pos && i < j)
}

/// The race game state.
pub struct Game {
    /// The distance to the finish line.
    pub width: u16,
    /// The racers, in starting order.
    pub racers: Vec<Racer>,
}

impl Game {
    /// Some racer has reached the finish line.
    pub open spec fn someone_finished(self) -> bool {
        exists|i: int|
            0 <= i < self.racers@.len() && (#[trigger] self.racers@[i]).pos >= self.width
    }

    /// A fresh game with no racers yet.
    pub fn new(width: u16) -> (g: Game)
        ensures
            g.width == width,
            g.racers@.len() == 0,
    {
        Game { width, racers: Vec::new() }
    }

    /// Start a round with the given number of racers: racer `i` is named
    /// with the digit `i + 1` and runs in lane row `2 * i + 1`, from
    /// position 1. Racers of an earlier round are discarded.
    pub fn reset(&mut self, num_players: u8)
        requires
            2 <= num_players <= 9,
        ensures
            final(self).width == old(self).width,
            final(self).racers@.len() == num_players as int,
            forall|i: int|
                0 <= i < num_players as int ==> {
                    &&& (#[trigger] final(self).racers@[i]).pos == 1
                    &&& final(self).racers@[i].speed == 1
                    &&& final(self).racers@[i].name == digit_name(i)
                    &&& final(self).racers@[i].line_num == 2 * i + 1
                    &&& glyph_list().contains(final(self).racers@[i].racer_type)
                },
    {
        self.racers = Vec::new();
        let mut i: u8 = 0;
        while i < num_players
            invariant
                i <= num_players,
                num_players <= 9,
                self.width == old(self).width,
                self.racers@.len() == i as int,
                forall|j: int|
                    0 <= j < i as int ==> {
                        &&& (#[trigger] self.racers@[j]).pos == 1
                        &&& self.racers@[j].speed == 1
                        &&& self.racers@[j].name == digit_name(j)
                        &&& self.racers@[j].line_num == 2 * j + 1
                        &&& glyph_list().contains(self.racers@[j].racer_type)
                    },
            decreases num_players - i,
        {
            let name: char = (49 + i) as char;
            let line: u16 = (i as u16) * 2 + 1;
            self.racers.push(Racer::new(name, line));
            i = i + 1;
        }
    }

    /// One tick: every racer re-rolls its speed and advances by it.
    pub fn move_player(&mut self)
        requires
            old(self).width <= u16::MAX - 7,
            forall|i: int|
                0 <= i < old(self).racers@.len() ==> (#[trigger] old(self).racers@[i]).pos
                    <= old(self).width,
        ensures
            final(self).width == old(self).width,
            final(self).racers@.len() == old(self).racers@.len(),
            forall|i: int|
                0 <= i < old(self).racers@.len() ==> {
                    &&& old(self).racers@[i].pos < (#[trigger] final(self).racers@[i]).pos
                        <= old(self).racers@[i].pos + 7
                    &&& 1 <= final(self).racers@[i].speed < 8
                    &&& final(self).racers@[i].pos == old(self).racers@[i].pos
                        + final(self).racers@[i].speed
                    &&& final(self).racers@[i].name == old(self).racers@[i].name
                    &&& final(self).racers@[i].racer_type == old(self).racers@[i].racer_type
                    &&& final(self).racers@[i].line_num == old(self).racers@[i].line_num
                },
    {
        let n: usize = self.racers.len();
        let mut i: usize = 0;
        while i < n
            invariant
                i <= n,
                n == self.racers@.len(),
                n == old(self).racers@.len(),
                self.width == old(self).width,
                old(self).width <= u16::MAX - 7,
                forall|j: int|
                    0 <= j < n ==> (#[trigger] old(self).racers@[j]).pos <= old(self).width,
                forall|j: int|
                    i as int <= j < n ==> #[trigger] self.racers@[j] == old(self).racers@[j],
                forall|j: int|
                    0 <= j < i as int ==> {
                        &&& old(self).racers@[j].pos < (#[trigger] self.racers@[j]).pos
                            <= old(self).racers@[j].pos + 7
                        &&& 1 <= self.racers@[j].speed < 8
                        &&& self.racers@[j].pos == old(self).racers@[j].pos
                            + self.racers@[j].speed
                        &&& self.racers@[j].name == old(self).racers@[j].name
                        &&& self.racers@[j].racer_type == old(self).racers@[j].racer_type
                        &&& self.racers@[j].line_num == old(self).racers@[j].line_num
                    },
            decreases n - i,
        {
            let racer: &mut Racer = &mut self.racers[i];
            racer.run();
            i = i + 1;
        }
    }

    /// Racer `i` finishes ahead of racer `j`; see `rank_precedes`.
    fn precedes_at(&self, i: usize, j: usize) -> (b: bool)
        requires
            i < self.racers@.len(),
            j < self.racers@.len(),
        ensures
            b == rank_precedes(self.racers@, i as int, j as int),
    {
        let pi: u16 = self.racers[i].pos;
        let pj: u16 = self.racers[j].pos;
        pi > pj || (pi == pj && i < j)
    }

    /// The racers' final ranking as indices into `racers`: sorted by
    /// descending position, ties broken by starting order. The result
    /// is a permutation of all the indices.
    #[verifier::rlimit(60)]
    pub fn ranking(&self) -> (r: Vec<usize>)
        ensures
            r@.len() == self.racers@.len(),
            forall|a: int, b: int|
                0 <= a < b < r@.len() ==> rank_precedes(
                    self.racers@,
                    (#[trigger] r@[a]) as int,
                    (#[trigger] r@[b]) as int,
                ),
            forall|k: int| 0 <= k < r@.len() ==> (#[trigger] r@[k]) < self.racers@.len(),
            forall|i: int| 0 <= i < self.racers@.len() ==> #[trigger] r@.contains(i as usize),
    {
        let n: usize = self.racers.len();
        let mut r: Vec<usize> = Vec::new();
        let mut j: usize = 0;
        while j < n
            invariant
                j <= n,
                n == self.racers@.len(),
                r@.len() == j,
                forall|k: int| 0 <= k < j as int ==> (#[trigger] r@[k]) < j,
                forall|a: int, b: int|
                    0 <= a < b < j as int ==> rank_precedes(
                        self.racers@,
                        (#[trigger] r@[a]) as int,
                        (#[trigger] r@[b]) as int,
                    ),
                forall|i: int| 0 <= i < j as int ==> #[trigger] r@.contains(i as usize),
            decreases n - j,
        {
            let ghost old_r = r@;
            let mut p: usize = 0;
            while p < r.len() && self.precedes_at(r[p], j)
                invariant
                    p <= r@.len(),
                    r@ == old_r,
                    r@.len() == j,
                    j < n,
                    n == self.racers@.len(),
                    forall|k: int| 0 <= k < j as int ==> (#[trigger] r@[k]) < j,
                    forall|q: int|
                        0 <= q < p as int ==> rank_precedes(
                            self.racers@,
                            (#[trigger] r@[q]) as int,
                            j as int,
                        ),
                decreases r@.len() - p,
            {
                p = p + 1;
            }
            r.insert(p, j);
            proof {
                assert forall|a: int, b: int|
                    0 <= a < b < r@.len() implies rank_precedes(
                    self.racers@,
                    (r@[a]) as int,
                    (r@[b]) as int,
                ) by {
                    if b < p as int {
                        assert(r@[a] == old_r[a] && r@[b] == old_r[b]);
                    } else if a < p as int && b == p as int {
                        assert(r@[a] == old_r[a] && r@[b] == j);
                    } else if a < p as int && b > p as int {
                        assert(r@[a] == old_r[a] && r@[b] == old_r[b - 1]);
                    } else if a == p as int {
                        assert(r@[a] == j && r@[b] == old_r[b - 1]);
                        assert(p < old_r.len() ==> !rank_precedes(
                            self.racers@,
                            old_r[p as int] as int,
                            j as int,
                        ));
                    } else {
                        assert(r@[a] == old_r[a - 1] && r@[b] == old_r[b - 1]);
                    }
                }
                assert forall|i: int| 0 <= i < j as int + 1 implies #[trigger] r@.contains(
                    i as usize,
                ) by {
                    if i == j as int {
                        assert(r@[p as int] == (i as usize));
                    } else {
                        assert(old_r.contains(i as usize));
                        let k = choose|k: int| 0 <= k < old_r.len() && old_r[k] == (i as usize);
                        if k < p as int {
                            assert(r@[k] == (i as usize));
                        } else {
                            assert(r@[k + 1] == (i as usize));
                        }
                    }
                }
            }
            j = j + 1;
        }
        r
    }

    /// Whether the round is over: some racer has reached the finish
    /// line. When it is, the full ranking is reported (sorted by
    /// descending position, ties in starting order); when not, the
    /// ranking is empty.
    pub fn check_game_over(&self) -> (r: (Vec<usize>, bool))
        ensures
            r.1 == self.someone_finished(),
            r.1 ==> {
                &&& r.0@.len() == self.racers@.len()
                &&& forall|a: int, b: int|
                    0 <= a < b < r.0@.len() ==> rank_precedes(
                        self.racers@,
                        (#[trigger] r.0@[a]) as int,
                        (#[trigger] r.0@[b]) as int,
                    )
                &&& forall|k: int| 0 <= k < r.0@.len() ==> (#[trigger] r.0@[k]) < self.racers@.len()
                &&& forall|i: int| 0 <= i < self.racers@.len() ==> #[trigger] r.0@.contains(i as usize)
            },
            !r.1 ==> r.0@.len() == 0,
    {
        let n: usize = self.racers.len();
        let mut is_end: bool = false;
        let mut i: usize = 0;
        while i < n
            invariant
                i <= n,
                n == self.racers@.len(),
                is_end == exists|k: int|
                    0 <= k < i as int && (#[trigger] self.racers@[k]).pos >= self.width,
            decreases n - i,
        {
            if self.racers[i].pos >= self.width {
                is_end = true;
            }
            i = i + 1;
        }
        if is_end {
            (self.ranking(), true)
        } else {
            (Vec::new(), false)
        }
    }
}

} // verus!
