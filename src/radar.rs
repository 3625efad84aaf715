use rand::rngs::ThreadRng;
use rand::Rng;
use vstd::prelude::*;
use crate::dispatch::decimal;

verus! {

/// The map's size in cells, across and down.
pub const MAP_WIDTH: i32 = 20;

pub const MAP_HEIGHT: i32 = 10;

/// The bounds on how many flights a fresh map holds.
pub const MAX_NUM_AIRCRAFTS: i32 = 10;

pub const MIN_NUM_AIRCRAFTS: i32 = 10;

/// The heading of an aircraft, one of the eight compass points.
#[derive(Clone, Copy, Debug, PartialEq, Eq, Structural)]
pub enum Direction {
    N,
    NE,
    E,
    SE,
    S,
    SW,
    W,
    NW,
}

/// An aircraft on the map: a call sign, a cell and a heading.
#[derive(Clone, Debug)]
pub struct Flight {
    pub id: String,
    pub x: i32,
    pub y: i32,
    pub direction: Direction,
}

/// The column step of a heading: east is `+1`, west is `-1`.
pub open spec fn dx(d: Direction) -> int {
    match d {
        Direction::NE | Direction::E | Direction::SE => 1,
        Direction::SW | Direction::W | Direction::NW => -1,
        Direction::N | Direction::S => 0,
    }
}

/// The row step of a heading: south is `+1`, north is `-1`.
pub open spec fn dy(d: Direction) -> int {
    match d {
        Direction::SE | Direction::S | Direction::SW => 1,
        Direction::N | Direction::NE | Direction::NW => -1,
        Direction::E | Direction::W => 0,
    }
}

/// One step of `delta` along an axis of `size` cells that wraps around at
/// both ends.
pub open spec fn wrap_step(v: int, delta: int, size: int) -> int {
    if delta > 0 {
        if v + 1 >= size {
            0
        } else {
            v + 1
        }
    } else if delta < 0 {
        if v - 1 < 0 {
            size - 1
        } else {
            v - 1
        }
    } else {
        v
    }
}

pub open spec fn on_map(f: Flight) -> bool {
    0 <= f.x < MAP_WIDTH && 0 <= f.y < MAP_HEIGHT
}

pub open spec fn all_on_map(s: Seq<Flight>) -> bool {
    forall|i: int| 0 <= i < s.len() ==> on_map(#[trigger] s[i])
}

/// The heading of the first flight, in list order, that stands at `(x, y)`.
pub open spec fn occupant_spec(s: Seq<Flight>, x: i32, y: i32) -> Option<Direction>
    decreases s.len(),
{
    if s.len() == 0 {
        None
    } else if s[0].x == x && s[0].y == y {
        Some(s[0].direction)
    } else {
        occupant_spec(s.drop_first(), x, y)
    }
}

pub open spec fn is_upper(c: char) -> bool {
    'A' <= c <= 'Z'
}

/// `n` in decimal, padded with zeros to at least two digits.
pub open spec fn two_digits(n: nat) -> Seq<char> {
    if n < 10 {
        seq!['0'] + decimal(n)
    } else {
        decimal(n)
    }
}

/// A call sign: two capital letters, then a number from 10 to 9998.
pub open spec fn is_call_sign(s: Seq<char>) -> bool {
    &&& s.len() >= 2
    &&& is_upper(s[0])
    &&& is_upper(s[1])
    &&& exists|n: nat| 10 <= n < 9999 && s.subrange(2, s.len() as int) == #[trigger] two_digits(n)
}

pub open spec fn direction_of_index(k: u32) -> Direction {
    if k == 0 {
        Direction::N
    } else if k == 1 {
        Direction::NE
    } else if k == 2 {
        Direction::E
    } else if k == 3 {
        Direction::SE
    } else if k == 4 {
        Direction::S
    } else if k == 5 {
        Direction::SW
    } else if k == 6 {
        Direction::W
    } else if k == 7 {
        Direction::NW
    } else {
        Direction::N
    }
}

pub open spec fn arrow_text(d: Direction) -> Seq<char> {
    match d {
        Direction::N => seq!['\u{2191}', ' '],
        Direction::NE => seq!['\u{2197}', ' '],
        Direction::E => seq!['\u{2192}', ' '],
        Direction::SE => seq!['\u{2198}', '\u{FE0E}', ' '],
        Direction::S => seq!['\u{2193}', ' '],
        Direction::SW => seq!['\u{2199}', ' '],
        Direction::W => seq!['\u{2190}', ' '],
        Direction::NW => seq!['\u{2196}', '\u{FE0E}', ' '],
    }
}

impl Direction {
    /// The arrow drawn for this heading in a map cell, followed by a space.
    pub fn arrow(&self) -> (r: &'static str)
        ensures
            r@ == arrow_text(*self),
    {
        match self {
            Direction::N => {
                proof {
                    reveal_strlit("\u{2191} ");
                }
                "\u{2191} "
            },
            Direction::NE => {
                proof {
                    reveal_strlit("\u{2197} ");
                }
                "\u{2197} "
            },
            Direction::E => {
                proof {
                    reveal_strlit("\u{2192} ");
                }
                "\u{2192} "
            },
            Direction::SE => {
                proof {
                    reveal_strlit("\u{2198}\u{FE0E} ");
                }
                "\u{2198}\u{FE0E} "
            },
            Direction::S => {
                proof {
                    reveal_strlit("\u{2193} ");
                }
                "\u{2193} "
            },
            Direction::SW => {
                proof {
                    reveal_strlit("\u{2199} ");
                }
                "\u{2199} "
            },
            Direction::W => {
                proof {
                    reveal_strlit("\u{2190} ");
                }
                "\u{2190} "
            },
            Direction::NW => {
                proof {
                    reveal_strlit("\u{2196}\u{FE0E} ");
                }
                "\u{2196}\u{FE0E} "
            },
        }
    }
}

/// One step of `delta` (-1, 0 or 1) along an axis of `size` cells.
fn wrap_coord(v: i32, delta: i32, size: i32) -> (r: i32)
    requires
        0 <= v < size,
        -1 <= delta <= 1,
    ensures
        r == wrap_step(v as int, delta as int, size as int),
        0 <= r < size,
{
    if delta > 0 {
        if v + 1 >= size {
            0
        } else {
            v + 1
        }
    } else if delta < 0 {
        if v - 1 < 0 {
            size - 1
        } else {
            v - 1
        }
    } else {
        v
    }
}

impl Direction {
    pub fn step_x(&self) -> (r: i32)
        ensures
            r == dx(*self),
    {
        match self {
            Direction::NE | Direction::E | Direction::SE => 1,
            Direction::SW | Direction::W | Direction::NW => -1,
            Direction::N | Direction::S => 0,
        }
    }

    pub fn step_y(&self) -> (r: i32)
        ensures
            r == dy(*self),
    {
        match self {
            Direction::SE | Direction::S | Direction::SW => 1,
            Direction::N | Direction::NE | Direction::NW => -1,
            Direction::E | Direction::W => 0,
        }
    }
}

/// Moves every flight one cell along its heading; a flight that leaves the
/// map on one edge comes back on the opposite edge.
pub fn move_aircrafts(data_set: &mut Vec<Flight>)
    requires
        all_on_map(old(data_set)@),
    ensures
        final(data_set)@.len() == old(data_set)@.len(),
        all_on_map(final(data_set)@),
        forall|i: int|
            0 <= i < old(data_set)@.len() ==> {
                let (a, b) = (old(data_set)@[i], #[trigger] final(data_set)@[i]);
                &&& b.id == a.id
                &&& b.direction == a.direction
                &&& b.x == wrap_step(a.x as int, dx(a.direction), MAP_WIDTH as int)
                &&& b.y == wrap_step(a.y as int, dy(a.direction), MAP_HEIGHT as int)
            },
{
    let ghost before = data_set@;
    let n = data_set.len();
    let mut i: usize = 0;
    while i < n
        invariant
            n == before.len(),
            data_set@.len() == n,
            i <= n,
            all_on_map(data_set@),
            forall|j: int| i <= j < n ==> #[trigger] data_set@[j] == before[j],
            forall|j: int|
                0 <= j < i ==> {
                    let (a, b) = (before[j], #[trigger] data_set@[j]);
                    &&& b.id == a.id
                    &&& b.direction == a.direction
                    &&& b.x == wrap_step(a.x as int, dx(a.direction), MAP_WIDTH as int)
                    &&& b.y == wrap_step(a.y as int, dy(a.direction), MAP_HEIGHT as int)
                },
        decreases n - i,
    {
        let direction = data_set[i].direction;
        let x = wrap_coord(data_set[i].x, direction.step_x(), MAP_WIDTH);
        let y = wrap_coord(data_set[i].y, direction.step_y(), MAP_HEIGHT);
        let id = data_set[i].id.clone();
        data_set.set(i, Flight { id, x, y, direction });
        i = i + 1;
    }
}

/// The heading of the first flight, in list order, at cell `(x, y)`.
pub fn occupant(data_set: &Vec<Flight>, x: i32, y: i32) -> (r: Option<Direction>)
    ensures
        r == occupant_spec(data_set@, x, y),
{
    let mut i: usize = 0;
    assert(data_set@.subrange(0, data_set@.len() as int) =~= data_set@);
    while i < data_set.len()
        invariant
            i <= data_set@.len(),
            occupant_spec(data_set@, x, y) == occupant_spec(
                data_set@.subrange(i as int, data_set@.len() as int),
                x,
                y,
            ),
        decreases data_set@.len() - i,
    {
        let ghost rest = data_set@.subrange(i as int, data_set@.len() as int);
        if data_set[i].x == x && data_set[i].y == y {
            return Some(data_set[i].direction);
        }
        assert(rest.drop_first() =~= data_set@.subrange(i + 1, data_set@.len() as int));
        i = i + 1;
    }
    assert(data_set@.subrange(i as int, data_set@.len() as int) =~= Seq::<Flight>::empty());
    None
}

/// How many ticks of the animation pass between two moves of the flights.
pub const TICKS_PER_MOVE: u32 = 3;

/// The animation's step: given the ticks skipped so far, the new count and
/// whether the flights move (and the map is drawn) on this tick.
pub fn next_tick(skip_counter: u32) -> (r: (u32, bool))
    requires
        skip_counter <= TICKS_PER_MOVE,
    ensures
        skip_counter == TICKS_PER_MOVE ==> r == (0u32, true),
        skip_counter < TICKS_PER_MOVE ==> r.0 == skip_counter + 1 && !r.1,
        r.0 <= TICKS_PER_MOVE,
{
    if skip_counter == TICKS_PER_MOVE {
        (0, true)
    } else {
        (skip_counter + 1, false)
    }
}

/// rand's generator local to the current thread, carried through opaquely.
#[verifier::external_type_specification]
#[verifier::external_body]
pub struct ExThreadRng(ThreadRng);

/// Relies on `rand::thread_rng`: a handle to this thread's generator.
#[verifier::external_body]
fn new_rng() -> (r: ThreadRng) {
    rand::thread_rng()
}

/// Relies on `rand::Rng::gen_range` on a half-open range: a value in
/// `lo..hi`. It panics on an empty range, which `requires` rules out.
#[verifier::external_body]
fn draw(rng: &mut ThreadRng, lo: u32, hi: u32) -> (r: u32)
    requires
        lo < hi,
    ensures
        lo <= r < hi,
{
    rng.gen_range(lo..hi)
}

/// Relies on `format!` with `{}{}{:02}`: two characters, then the number in
/// decimal with at least two digits.
#[verifier::external_body]
fn call_sign_text(first: char, second: char, number: u32) -> (r: String)
    ensures
        r@ == seq![first, second] + two_digits(number as nat),
{
    format!("{}{}{:02}", first, second, number)
}

/// The heading numbered `k` in the order N, NE, E, SE, S, SW, W, NW; any
/// other number gives N.
pub fn direction_from_index(k: u32) -> (r: Direction)
    ensures
        r == direction_of_index(k),
{
    match k {
        0 => Direction::N,
        1 => Direction::NE,
        2 => Direction::E,
        3 => Direction::SE,
        4 => Direction::S,
        5 => Direction::SW,
        6 => Direction::W,
        7 => Direction::NW,
        _ => Direction::N,
    }
}

/// The flight built from drawn values: the call sign is the two letters and
/// the number with at least two digits, the heading is the one numbered
/// `heading`.
pub fn make_flight(first: u8, second: u8, number: u32, x: i32, y: i32, heading: u32) -> (r: Flight)
    ensures
        r.id@ == seq![first as char, second as char] + two_digits(number as nat),
        r.x == x,
        r.y == y,
        r.direction == direction_of_index(heading),
{
    Flight {
        id: call_sign_text(first as char, second as char, number),
        x,
        y,
        direction: direction_from_index(heading),
    }
}

/// Appends one flight with a random call sign, cell and heading.
pub fn add_new_flight(data_set: &mut Vec<Flight>)
    ensures
        final(data_set)@.len() == old(data_set)@.len() + 1,
        final(data_set)@.subrange(0, old(data_set)@.len() as int) == old(data_set)@,
        on_map(final(data_set)@.last()),
        is_call_sign(final(data_set)@.last().id@),
{
    let mut rng = new_rng();
    let first = draw(&mut rng, 'A' as u32, 'Z' as u32 + 1);
    let second = draw(&mut rng, 'A' as u32, 'Z' as u32 + 1);
    let number = draw(&mut rng, 10, 9999);
    let x = draw(&mut new_rng(), 0, MAP_WIDTH as u32);
    let y = draw(&mut new_rng(), 0, MAP_HEIGHT as u32);
    let heading = draw(&mut new_rng(), 0, 8);
    let f = make_flight(first as u8, second as u8, number, x as i32, y as i32, heading);
    let ghost rest = f.id@.subrange(2, f.id@.len() as int);
    assert(rest =~= two_digits(number as nat));
    data_set.push(f);
    assert(data_set@.subrange(0, data_set@.len() - 1) =~= old(data_set)@);
}

/// Fills the map with a random number of flights, between
/// `MIN_NUM_AIRCRAFTS` and `MAX_NUM_AIRCRAFTS`.
pub fn generate_map(data_set: &mut Vec<Flight>)
    ensures
        MIN_NUM_AIRCRAFTS <= final(data_set)@.len() - old(data_set)@.len() <= MAX_NUM_AIRCRAFTS,
        final(data_set)@.subrange(0, old(data_set)@.len() as int) == old(data_set)@,
        forall|i: int|
            old(data_set)@.len() <= i < final(data_set)@.len() ==> {
                &&& on_map(#[trigger] final(data_set)@[i])
                &&& is_call_sign(final(data_set)@[i].id@)
            },
{
    let count = draw(&mut new_rng(), MIN_NUM_AIRCRAFTS as u32, MAX_NUM_AIRCRAFTS as u32 + 1);
    let ghost start = old(data_set)@;
    let mut k: u32 = 0;
    while k < count
        invariant
            k <= count <= MAX_NUM_AIRCRAFTS,
            data_set@.len() == start.len() + k,
            data_set@.subrange(0, start.len() as int) == start,
            forall|i: int|
                start.len() <= i < data_set@.len() ==> {
                    &&& on_map(#[trigger] data_set@[i])
                    &&& is_call_sign(data_set@[i].id@)
                },
        decreases count - k,
    {
        let ghost prev = data_set@;
        add_new_flight(data_set);
        assert forall|i: int| 0 <= i < prev.len() implies #[trigger] data_set@[i] == prev[i] by {
            assert(data_set@.subrange(0, prev.len() as int)[i] == data_set@[i]);
        }
        assert(data_set@.subrange(0, start.len() as int) =~= prev.subrange(0, start.len() as int));
        k = k + 1;
    }
}

/// `t` written `n` times in a row.
pub open spec fn repeat(t: Seq<char>, n: nat) -> Seq<char>
    decreases n,
{
    if n == 0 {
        Seq::empty()
    } else {
        repeat(t, (n - 1) as nat) + t
    }
}

/// What a cell shows: the arrow of its first flight, or two spaces.
pub open spec fn cell_text(s: Seq<Flight>, x: i32, y: i32) -> Seq<char> {
    match occupant_spec(s, x, y) {
        Some(d) => arrow_text(d),
        None => seq![' ', ' '],
    }
}

/// The first `n` cells of row `y`, each behind a `|`.
pub open spec fn cells_text(s: Seq<Flight>, y: i32, n: nat) -> Seq<char>
    decreases n,
{
    if n == 0 {
        Seq::empty()
    } else {
        cells_text(s, y, (n - 1) as nat) + seq!['|'] + cell_text(s, (n - 1) as i32, y)
    }
}

/// Row `y` of the map: a rule above it, then its cells between bars.
pub open spec fn row_text(s: Seq<Flight>, y: i32) -> Seq<char> {
    seq![' '] + repeat(seq!['-', '-', ' '], MAP_WIDTH as nat) + seq!['\r', '\n'] + cells_text(
        s,
        y,
        MAP_WIDTH as nat,
    ) + seq!['|', '\r', '\n']
}

/// The first `n` rows of the map.
pub open spec fn rows_text(s: Seq<Flight>, n: nat) -> Seq<char>
    decreases n,
{
    if n == 0 {
        Seq::empty()
    } else {
        rows_text(s, (n - 1) as nat) + row_text(s, (n - 1) as i32)
    }
}

/// The whole map as text: every row, then a closing rule.
pub open spec fn map_text(s: Seq<Flight>) -> Seq<char> {
    rows_text(s, MAP_HEIGHT as nat) + repeat(seq![' ', '-', '-'], MAP_WIDTH as nat) + seq!['\r', '\n']
}

/// Appends `t` to `out` `n` times.
fn append_repeated(out: &mut String, t: &str, n: i32)
    requires
        n >= 0,
    ensures
        final(out)@ == old(out)@ + repeat(t@, n as nat),
{
    let mut k: i32 = 0;
    assert(old(out)@ + repeat(t@, 0) =~= old(out)@);
    while k < n
        invariant
            0 <= k <= n,
            out@ == old(out)@ + repeat(t@, k as nat),
        decreases n - k,
    {
        out.append(t);
        k = k + 1;
        assert(out@ =~= old(out)@ + repeat(t@, k as nat));
    }
}

/// Draws the map as text, `MAP_HEIGHT` rows of `MAP_WIDTH` cells, each cell
/// showing the arrow of the first flight in it.
pub fn render_map(data_set: &Vec<Flight>) -> (r: String)
    ensures
        r@ == map_text(data_set@),
{
    let mut out = String::new();
    let mut y: i32 = 0;
    assert(out@ =~= rows_text(data_set@, 0));
    while y < MAP_HEIGHT
        invariant
            0 <= y <= MAP_HEIGHT,
            out@ == rows_text(data_set@, y as nat),
        decreases MAP_HEIGHT - y,
    {
        let ghost before = out@;
        out.append(" ");
        append_repeated(&mut out, "-- ", MAP_WIDTH);
        out.append("\r\n");
        let ghost head = out@;
        let mut x: i32 = 0;
        while x < MAP_WIDTH
            invariant
                0 <= x <= MAP_WIDTH,
                0 <= y < MAP_HEIGHT,
                out@ == head + cells_text(data_set@, y, x as nat),
            decreases MAP_WIDTH - x,
        {
            out.append("|");
            let ghost mid = out@;
            match occupant(data_set, x, y) {
                None => {
                    out.append("  ");
                    proof {
                        reveal_strlit("  ");
                    }
                    assert("  "@ =~= seq![' ', ' ']);
                },
                Some(d) => out.append(d.arrow()),
            }
            assert(out@ =~= mid + cell_text(data_set@, x, y));
            x = x + 1;
            proof {
                reveal_strlit("|");
            }
            assert("|"@ =~= seq!['|']);
            assert(cells_text(data_set@, y, x as nat) == cells_text(data_set@, y, (x - 1) as nat)
                + seq!['|'] + cell_text(data_set@, (x - 1) as i32, y));
            assert(out@ =~= head + cells_text(data_set@, y, x as nat));
        }
        out.append("|\r\n");
        proof {
            reveal_strlit("|\r\n");
            reveal_strlit(" ");
            reveal_strlit("\r\n");
            reveal_strlit("-- ");
        }
        assert("|\r\n"@ =~= seq!['|', '\r', '\n']);
        assert(" "@ =~= seq![' ']);
        assert("\r\n"@ =~= seq!['\r', '\n']);
        assert("-- "@ =~= seq!['-', '-', ' ']);
        assert(out@ =~= before + row_text(data_set@, y));
        y = y + 1;
        assert(out@ =~= rows_text(data_set@, y as nat));
    }
    append_repeated(&mut out, " --", MAP_WIDTH);
    out.append("\r\n");
    proof {
        reveal_strlit("\r\n");
        reveal_strlit(" --");
    }
    assert("\r\n"@ =~= seq!['\r', '\n']);
    assert(" --"@ =~= seq![' ', '-', '-']);
    assert(out@ =~= map_text(data_set@));
    out
}

} // verus!
