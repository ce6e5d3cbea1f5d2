//! The board: directions, coordinates, cells, and the toroidal snapshot.

use vstd::prelude::*;

verus! {

/// A compass direction on the board. `Still` means "stay in place".
#[derive(Clone, Copy, PartialEq, Eq, Structural, Debug)]
pub enum Direction {
    Still,
    North,
    East,
    South,
    West,
}

/// The invalid-argument condition signalled when an operation defined only
/// on the four cardinal directions is asked of `Still`.
#[derive(Clone, Copy, PartialEq, Eq, Structural, Debug)]
pub struct InvalidDirection;

/// The opposite of a cardinal direction. `Still` is mapped to itself here;
/// the executable `reverse` rejects it instead.
pub open spec fn spec_reverse(d: Direction) -> Direction {
    match d {
        Direction::Still => Direction::Still,
        Direction::North => Direction::South,
        Direction::East => Direction::West,
        Direction::South => Direction::North,
        Direction::West => Direction::East,
    }
}

/// Reverses a cardinal direction; the reverse of `Still` is undefined and is
/// signalled as an error rather than silently mapped to some direction.
pub fn reverse(d: Direction) -> (r: Result<Direction, InvalidDirection>)
    ensures
        d is Still <==> r is Err,
        !(d is Still) ==> r == Ok::<Direction, InvalidDirection>(spec_reverse(d)),
{
    match d {
        Direction::Still => Err(InvalidDirection),
        Direction::North => Ok(Direction::South),
        Direction::East => Ok(Direction::West),
        Direction::South => Ok(Direction::North),
        Direction::West => Ok(Direction::East),
    }
}

/// Reverses a direction already known to be cardinal, for callers that
/// have ruled `Still` out.
pub fn reverse_cardinal(d: Direction) -> (r: Direction)
    requires
        !(d is Still),
    ensures
        r == spec_reverse(d),
        !(r is Still),
{
    match d {
        Direction::Still => vstd::pervasive::unreached(),
        Direction::North => Direction::South,
        Direction::East => Direction::West,
        Direction::South => Direction::North,
        Direction::West => Direction::East,
    }
}

/// Reversing a cardinal direction twice gives the direction back.
pub proof fn lemma_reverse_involution(d: Direction)
    requires
        !(d is Still),
    ensures
        spec_reverse(spec_reverse(d)) == d,
{
}

/// The four cardinal directions in the fixed scan order used throughout:
/// north, east, south, west.
pub open spec fn cardinal(i: int) -> Direction {
    if i == 0 {
        Direction::North
    } else if i == 1 {
        Direction::East
    } else if i == 2 {
        Direction::South
    } else {
        Direction::West
    }
}

/// Executable lookup of the cardinal scan order.
pub fn cardinal_at(i: usize) -> (d: Direction)
    requires
        i < 4,
    ensures
        d == cardinal(i as int),
        !(d is Still),
{
    if i == 0 {
        Direction::North
    } else if i == 1 {
        Direction::East
    } else if i == 2 {
        Direction::South
    } else {
        Direction::West
    }
}

/// A coordinate pair on the board; all addressing is modulo the board's
/// width and height. A pure value: equality is by coordinates.
#[derive(Clone, Copy, PartialEq, Eq, Structural, Debug)]
pub struct Location {
    pub x: u16,
    pub y: u16,
}

/// One grid cell: its owner (0 means unowned), its current strength and its
/// fixed production. Read from the snapshot, never mutated by the engine.
#[derive(Clone, Copy, PartialEq, Eq, Structural, Debug)]
pub struct Cell {
    pub owner: u8,
    pub strength: u8,
    pub production: u8,
}

/// A read-only snapshot of the board for one turn. Cells are stored
/// row-major: the cell at (x, y) sits at index `y * width + x`.
pub struct GameMap {
    pub width: u16,
    pub height: u16,
    pub sites: Vec<Cell>,
}

impl GameMap {
    /// A well-formed snapshot: positive dimensions and one stored cell per
    /// board position.
    pub open spec fn valid(self) -> bool {
        &&& 1 <= self.width
        &&& 1 <= self.height
        &&& self.sites@.len() == self.width as int * self.height as int
    }

    pub open spec fn in_bounds(self, loc: Location) -> bool {
        loc.x < self.width && loc.y < self.height
    }

    pub open spec fn index_of(self, loc: Location) -> int {
        loc.y as int * self.width as int + loc.x as int
    }

    /// The cell standing at `loc`.
    pub open spec fn site(self, loc: Location) -> Cell {
        self.sites@[self.index_of(loc)]
    }

    /// Whether the cell at `loc` is owned by the acting player.
    pub open spec fn is_friendly(self, my_id: u8, loc: Location) -> bool {
        self.site(loc).owner == my_id
    }

    /// One toroidal step from `loc`: north decreases y, south increases y,
    /// west decreases x, east increases x, each wrapping at the board edge.
    pub open spec fn spec_step(self, loc: Location, d: Direction) -> Location {
        match d {
            Direction::Still => loc,
            Direction::North => Location {
                x: loc.x,
                y: if loc.y == 0 { (self.height - 1) as u16 } else { (loc.y - 1) as u16 },
            },
            Direction::South => Location {
                x: loc.x,
                y: if loc.y + 1 == self.height { 0u16 } else { (loc.y + 1) as u16 },
            },
            Direction::West => Location {
                x: if loc.x == 0 { (self.width - 1) as u16 } else { (loc.x - 1) as u16 },
                y: loc.y,
            },
            Direction::East => Location {
                x: if loc.x + 1 == self.width { 0u16 } else { (loc.x + 1) as u16 },
                y: loc.y,
            },
        }
    }

    pub proof fn lemma_index_in_range(self, loc: Location)
        requires
            self.valid(),
            self.in_bounds(loc),
        ensures
            0 <= self.index_of(loc) < self.sites@.len(),
            self.index_of(loc) < 0x1_0000_0000,
    {
        assert(0 <= (loc.y as int * self.width as int + loc.x as int) && (loc.y as int
            * self.width as int + loc.x as int) < (self.width as int * self.height as int)
            && (self.width as int * self.height as int) <= 0x1_0000_0000) by (nonlinear_arith)
            requires
                loc.x < self.width,
                loc.y < self.height,
                self.width <= 0xffff,
                self.height <= 0xffff,
        ;
    }

    pub proof fn lemma_area_bound(self)
        requires
            self.valid(),
        ensures
            self.sites@.len() <= 0x1_0000_0000,
    {
        assert((self.width as int * self.height as int) <= 0x1_0000_0000) by (nonlinear_arith)
            requires
                self.width <= 0xffff,
                self.height <= 0xffff,
        ;
    }

    pub proof fn lemma_index_injective(self, a: Location, b: Location)
        requires
            self.valid(),
            self.in_bounds(a),
            self.in_bounds(b),
            self.index_of(a) == self.index_of(b),
        ensures
            a == b,
    {
        assert(a.x == b.x && a.y == b.y) by (nonlinear_arith)
            requires
                a.x < self.width,
                b.x < self.width,
                a.y as int * self.width as int + a.x as int == b.y as int * self.width as int
                    + b.x as int,
        ;
    }

    pub proof fn lemma_loc_index_inverse(self, l: Location)
        requires
            self.valid(),
            self.in_bounds(l),
        ensures
            loc_of_index(self, self.index_of(l)) == l,
    {
        assert((self.index_of(l) % self.width as int) == l.x as int && (self.index_of(l)
            / self.width as int) == l.y as int) by (nonlinear_arith)
            requires
                l.x < self.width,
                l.y < self.height,
                self.index_of(l) == l.y as int * self.width as int + l.x as int,
        ;
    }

    /// Row-major index of `loc`, used to address the stored cells.
    pub fn site_index(&self, loc: Location) -> (i: usize)
        requires
            self.valid(),
            self.in_bounds(loc),
        ensures
            i == self.index_of(loc),
            i < self.sites@.len(),
    {
        proof {
            self.lemma_index_in_range(loc);
        }
        (loc.y as usize) * (self.width as usize) + (loc.x as usize)
    }

    /// The location reached by stepping once from `loc` in direction `d`.
    pub fn get_location(&self, loc: Location, d: Direction) -> (r: Location)
        requires
            self.valid(),
            self.in_bounds(loc),
        ensures
            r == self.spec_step(loc, d),
            self.in_bounds(r),
    {
        match d {
            Direction::Still => loc,
            Direction::North => Location {
                x: loc.x,
                y: if loc.y == 0 { self.height - 1 } else { loc.y - 1 },
            },
            Direction::South => Location {
                x: loc.x,
                y: if loc.y + 1 == self.height { 0 } else { loc.y + 1 },
            },
            Direction::West => Location {
                x: if loc.x == 0 { self.width - 1 } else { loc.x - 1 },
                y: loc.y,
            },
            Direction::East => Location {
                x: if loc.x + 1 == self.width { 0 } else { loc.x + 1 },
                y: loc.y,
            },
        }
    }

    /// The cell reached by stepping once from `loc` in direction `d`
    /// (`Still` reads the cell at `loc` itself).
    pub fn get_site(&self, loc: Location, d: Direction) -> (c: Cell)
        requires
            self.valid(),
            self.in_bounds(loc),
        ensures
            c == self.site(self.spec_step(loc, d)),
    {
        let l2 = self.get_location(loc, d);
        let i = self.site_index(l2);
        self.sites[i]
    }

    /// Toroidal distance between two locations: along each axis the shorter
    /// way around, the two summed.
    pub open spec fn spec_distance(self, a: Location, b: Location) -> int {
        let dx = if a.x >= b.x { a.x - b.x } else { b.x - a.x };
        let dy = if a.y >= b.y { a.y - b.y } else { b.y - a.y };
        let mx = if dx <= self.width - dx { dx } else { self.width - dx };
        let my = if dy <= self.height - dy { dy } else { self.height - dy };
        mx + my
    }

    pub fn get_distance(&self, a: Location, b: Location) -> (r: u16)
        requires
            self.valid(),
            self.in_bounds(a),
            self.in_bounds(b),
        ensures
            r == self.spec_distance(a, b),
    {
        let dx = if a.x >= b.x { a.x - b.x } else { b.x - a.x };
        let dy = if a.y >= b.y { a.y - b.y } else { b.y - a.y };
        let mx = if dx <= self.width - dx { dx } else { self.width - dx };
        let my = if dy <= self.height - dy { dy } else { self.height - dy };
        assert(2 * mx <= self.width);
        assert(2 * my <= self.height);
        mx + my
    }

    /// The single cardinal step that best approaches `to` from `from`: the
    /// axis with the greater wrapped distance is taken first, ties prefer
    /// the horizontal axis, and on each axis ties between the two ways
    /// around prefer east and south.
    pub open spec fn spec_direction(self, from: Location, to: Location) -> Direction {
        let east = if to.x >= from.x { to.x - from.x } else { to.x + self.width - from.x };
        let west = if from.x >= to.x { from.x - to.x } else { from.x + self.width - to.x };
        let south = if to.y >= from.y { to.y - from.y } else { to.y + self.height - from.y };
        let north = if from.y >= to.y { from.y - to.y } else { from.y + self.height - to.y };
        let dx = if east <= west { east } else { west };
        let dy = if south <= north { south } else { north };
        let dir_x = if east <= west { Direction::East } else { Direction::West };
        let dir_y = if south <= north { Direction::South } else { Direction::North };
        if from.x == to.x && from.y == to.y {
            Direction::Still
        } else if from.x == to.x {
            dir_y
        } else if from.y == to.y {
            dir_x
        } else if dx >= dy {
            dir_x
        } else {
            dir_y
        }
    }

    pub fn get_direction(&self, from: Location, to: Location) -> (d: Direction)
        requires
            self.valid(),
            self.in_bounds(from),
            self.in_bounds(to),
        ensures
            d == self.spec_direction(from, to),
    {
        let w = self.width as u32;
        let h = self.height as u32;
        let east: u32 = if to.x >= from.x {
            (to.x - from.x) as u32
        } else {
            to.x as u32 + w - from.x as u32
        };
        let west: u32 = if from.x >= to.x {
            (from.x - to.x) as u32
        } else {
            from.x as u32 + w - to.x as u32
        };
        let south: u32 = if to.y >= from.y {
            (to.y - from.y) as u32
        } else {
            to.y as u32 + h - from.y as u32
        };
        let north: u32 = if from.y >= to.y {
            (from.y - to.y) as u32
        } else {
            from.y as u32 + h - to.y as u32
        };
        let dx = if east <= west { east } else { west };
        let dy = if south <= north { south } else { north };
        let dir_x = if east <= west { Direction::East } else { Direction::West };
        let dir_y = if south <= north { Direction::South } else { Direction::North };
        if from.x == to.x && from.y == to.y {
            Direction::Still
        } else if from.x == to.x {
            dir_y
        } else if from.y == to.y {
            dir_x
        } else if dx >= dy {
            dir_x
        } else {
            dir_y
        }
    }
}

/// The location stored at row-major index `i`.
pub open spec fn loc_of_index(map: GameMap, i: int) -> Location {
    Location { x: (i % map.width as int) as u16, y: (i / map.width as int) as u16 }
}

} // verus!
