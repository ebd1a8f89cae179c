//! The game board: a typed grid of squares with spatial queries.
//!
//! The board caches the coordinates of its town and artifact squares for
//! fast win checking; [`Board::cache_special_squares`] rebuilds the caches
//! and must be called whenever the grid is replaced wholesale.  The
//! well-formedness predicate [`Board::wf`] says exactly that: the grid is
//! rectangular and the caches list precisely the town and artifact squares.

use vstd::prelude::*;

verus! {

/// A grid position.
#[derive(Clone, Copy, Debug, PartialEq, Eq, Hash, Structural)]
pub struct Coordinate {
    pub x: usize,
    pub y: usize,
}

/// The edge a player attacks toward.
#[derive(Clone, Copy, Debug, PartialEq, Eq, Structural)]
pub enum Direction {
    North,
    East,
    South,
    West,
}

/// What the judge has so far found out about an occupied square's word.
#[derive(Clone, Copy, Debug, PartialEq, Eq, Structural)]
pub enum SquareValidity {
    Unknown,
    Valid,
    Invalid,
    Partial,
}

/// One square of the board.
#[derive(Clone, Copy, Debug, PartialEq, Eq, Structural)]
pub enum Square {
    Water { foggy: bool },
    Land { foggy: bool },
    Town { player: usize, defeated: bool, foggy: bool },
    Obelisk { foggy: bool },
    Artifact { player: usize, defeated: bool, foggy: bool },
    Occupied { player: usize, tile: char, validity: SquareValidity, foggy: bool },
    Fog {},
}

/// Why a board operation was refused.
#[derive(Clone, Copy, Debug, PartialEq, Eq, Structural)]
pub enum GamePlayError {
    OutsideBoardDimensions { x: usize, y: usize },
}

/// Whether `b` is one of the four orthogonal neighbors of `a`.
pub open spec fn is_orthogonal_neighbor(a: Coordinate, b: Coordinate) -> bool {
    ||| (b.y + 1 == a.y && b.x == a.x)
    ||| (a.y + 1 == b.y && b.x == a.x)
    ||| (b.x + 1 == a.x && b.y == a.y)
    ||| (a.x + 1 == b.x && b.y == a.y)
}

/// The board: a rectangular grid of squares, per-player attack directions,
/// and cached town and artifact locations.
#[derive(Clone, Debug, PartialEq, Eq)]
pub struct Board {
    pub squares: Vec<Vec<Square>>,
    pub orientations: Vec<Direction>,
    pub towns: Vec<Coordinate>,
    pub artifacts: Vec<Coordinate>,
}

impl Board {
    /// Number of rows.
    pub open spec fn height(&self) -> nat {
        self.squares@.len()
    }

    /// Number of columns.
    pub open spec fn width(&self) -> nat {
        if self.squares@.len() == 0 {
            0
        } else {
            self.squares@[0]@.len()
        }
    }

    /// Every row has the same width.
    pub open spec fn rectangular(&self) -> bool {
        forall|y: int| 0 <= y < self.height() ==> (#[trigger] self.squares@[y])@.len()
            == self.width()
    }

    /// Whether `c` lies on the board.
    pub open spec fn in_bounds(&self, c: Coordinate) -> bool {
        c.y < self.height() && c.x < self.width()
    }

    /// The square at `c`.
    pub open spec fn square_at(&self, c: Coordinate) -> Square {
        self.squares@[c.y as int]@[c.x as int]
    }

    /// The town cache lists exactly the coordinates of town squares.
    pub open spec fn towns_in_sync(&self) -> bool {
        &&& forall|i: int|
            0 <= i < self.towns@.len() ==> {
                &&& self.in_bounds(#[trigger] self.towns@[i])
                &&& self.square_at(self.towns@[i]) is Town
            }
        &&& forall|x: int, y: int|
            0 <= y < self.height() && 0 <= x < self.width() && (#[trigger] self.squares@[y]@[x])
                is Town ==> self.towns@.contains(
                Coordinate { x: x as usize, y: y as usize },
            )
    }

    /// The artifact cache lists exactly the coordinates of artifact squares.
    pub open spec fn artifacts_in_sync(&self) -> bool {
        &&& forall|i: int|
            0 <= i < self.artifacts@.len() ==> {
                &&& self.in_bounds(#[trigger] self.artifacts@[i])
                &&& self.square_at(self.artifacts@[i]) is Artifact
            }
        &&& forall|x: int, y: int|
            0 <= y < self.height() && 0 <= x < self.width() && (#[trigger] self.squares@[y]@[x])
                is Artifact ==> self.artifacts@.contains(
                Coordinate { x: x as usize, y: y as usize },
            )
    }

    /// A well-formed board: rectangular, with caches in sync with the grid.
    pub open spec fn wf(&self) -> bool {
        &&& self.rectangular()
        &&& self.towns_in_sync()
        &&& self.artifacts_in_sync()
    }

    /// A fresh open-water board of the given size, with the two default
    /// attack directions.
    pub fn new(width: usize, height: usize) -> (r: Board)
        ensures
            r.wf(),
            r.height() == height,
            width == 0 || height == 0 || r.width() == width,
            forall|x: int, y: int|
                0 <= y < r.height() && 0 <= x < r.squares@[y]@.len()
                    ==> (#[trigger] r.squares@[y]@[x]) == (Square::Water { foggy: false }),
            r.orientations@ == seq![Direction::North, Direction::South],
            r.towns@.len() == 0,
            r.artifacts@.len() == 0,
    {
        let mut squares: Vec<Vec<Square>> = Vec::new();
        let mut y: usize = 0;
        while y < height
            invariant
                y <= height,
                squares@.len() == y,
                forall|yy: int| 0 <= yy < y ==> (#[trigger] squares@[yy])@.len() == width,
                forall|yy: int, xx: int|
                    0 <= yy < y && 0 <= xx < width ==> (#[trigger] squares@[yy]@[xx]) == (
                    Square::Water { foggy: false }),
            decreases height - y,
        {
            let mut row: Vec<Square> = Vec::new();
            let mut x: usize = 0;
            while x < width
                invariant
                    x <= width,
                    row@.len() == x,
                    forall|xx: int|
                        0 <= xx < x ==> (#[trigger] row@[xx]) == (Square::Water { foggy: false }),
                decreases width - x,
            {
                row.push(Square::Water { foggy: false });
                x = x + 1;
            }
            squares.push(row);
            y = y + 1;
        }
        let mut orientations: Vec<Direction> = Vec::new();
        orientations.push(Direction::North);
        orientations.push(Direction::South);
        proof {
            assert(orientations@ =~= seq![Direction::North, Direction::South]);
        }
        Board { squares, orientations, towns: Vec::new(), artifacts: Vec::new() }
    }

    /// The square at `position`, or an out-of-bounds error.
    pub fn get(&self, position: Coordinate) -> (r: Result<Square, GamePlayError>)
        requires
            self.rectangular(),
        ensures
            self.in_bounds(position) ==> r == Ok::<Square, GamePlayError>(self.square_at(position)),
            !self.in_bounds(position) ==> r == Err::<Square, GamePlayError>(
                GamePlayError::OutsideBoardDimensions { x: position.x, y: position.y },
            ),
    {
        if position.y < self.squares.len() {
            let row = &self.squares[position.y];
            if position.x < row.len() {
                return Ok(row[position.x]);
            }
        }
        Err(GamePlayError::OutsideBoardDimensions { x: position.x, y: position.y })
    }

    /// Writes an occupied square for `player` holding `tile`.
    ///
    /// Legality of the placement is the caller's concern; the target must not
    /// be a town or artifact square, which the caches track.
    pub fn set(&mut self, position: Coordinate, player: usize, tile: char) -> (r: Result<
        (),
        GamePlayError,
    >)
        requires
            old(self).wf(),
            old(self).in_bounds(position) ==> !(old(self).square_at(position) is Town) && !(old(
                self,
            ).square_at(position) is Artifact),
        ensures
            final(self).wf(),
            old(self).in_bounds(position) ==> {
                &&& r == Ok::<(), GamePlayError>(())
                &&& final(self).square_at(position) == (Square::Occupied {
                    player,
                    tile,
                    validity: SquareValidity::Unknown,
                    foggy: false,
                })
                &&& final(self).height() == old(self).height()
                &&& final(self).width() == old(self).width()
                &&& forall|c: Coordinate|
                    old(self).in_bounds(c) && c != position ==> #[trigger] final(self).square_at(c)
                        == old(self).square_at(c)
                &&& final(self).orientations == old(self).orientations
                &&& final(self).towns == old(self).towns
                &&& final(self).artifacts == old(self).artifacts
            },
            !old(self).in_bounds(position) ==> {
                &&& r == Err::<(), GamePlayError>(
                    GamePlayError::OutsideBoardDimensions { x: position.x, y: position.y },
                )
                &&& *final(self) == *old(self)
            },
    {
        if position.y < self.squares.len() {
            if position.x < self.squares[position.y].len() {
                let sq = Square::Occupied {
                    player,
                    tile,
                    validity: SquareValidity::Unknown,
                    foggy: false,
                };
                self.squares[position.y].set(position.x, sq);
                proof {
                    assert(forall|y: int|
                        0 <= y < self.height() && y != position.y
                            ==> #[trigger] self.squares@[y] == old(self).squares@[y]);
                    assert(forall|c: Coordinate|
                        old(self).in_bounds(c) && c != position ==> #[trigger] self.square_at(c)
                            == old(self).square_at(c));
                    assert forall|i: int| 0 <= i < self.towns@.len() implies {
                        &&& self.in_bounds(#[trigger] self.towns@[i])
                        &&& self.square_at(self.towns@[i]) is Town
                    } by {
                        assert(old(self).square_at(old(self).towns@[i]) is Town);
                        assert(self.towns@[i] != position);
                    }
                    assert forall|i: int| 0 <= i < self.artifacts@.len() implies {
                        &&& self.in_bounds(#[trigger] self.artifacts@[i])
                        &&& self.square_at(self.artifacts@[i]) is Artifact
                    } by {
                        assert(old(self).square_at(old(self).artifacts@[i]) is Artifact);
                        assert(self.artifacts@[i] != position);
                    }
                }
                return Ok(());
            }
        }
        Err(GamePlayError::OutsideBoardDimensions { x: position.x, y: position.y })
    }

    /// The four orthogonal neighbors of `position`, clipped to the board.
    pub fn neighbors_4(&self, position: Coordinate) -> (r: Vec<Coordinate>)
        requires
            self.rectangular(),
            self.in_bounds(position),
        ensures
            forall|c: Coordinate|
                #[trigger] r@.contains(c) <==> (self.in_bounds(c) && is_orthogonal_neighbor(
                    position,
                    c,
                )),
    {
        let height = self.squares.len();
        let width = self.squares[0].len();
        let mut out: Vec<Coordinate> = Vec::new();
        let ghost mut up_idx: int = 0;
        let ghost mut down_idx: int = 0;
        let ghost mut left_idx: int = 0;
        let ghost mut right_idx: int = 0;
        if position.y > 0 {
            proof {
                up_idx = out@.len() as int;
            }
            out.push(Coordinate { x: position.x, y: position.y - 1 });
        }
        if position.y < height - 1 {
            proof {
                down_idx = out@.len() as int;
            }
            out.push(Coordinate { x: position.x, y: position.y + 1 });
        }
        if position.x > 0 {
            proof {
                left_idx = out@.len() as int;
            }
            out.push(Coordinate { x: position.x - 1, y: position.y });
        }
        if position.x < width - 1 {
            proof {
                right_idx = out@.len() as int;
            }
            out.push(Coordinate { x: position.x + 1, y: position.y });
        }
        proof {
            if position.y > 0 {
                assert(out@[up_idx] == (Coordinate { x: position.x, y: (position.y - 1) as usize }));
            }
            if position.y < height - 1 {
                assert(out@[down_idx] == (Coordinate { x: position.x, y: (position.y + 1) as usize }));
            }
            if position.x > 0 {
                assert(out@[left_idx] == (Coordinate { x: (position.x - 1) as usize, y: position.y }));
            }
            if position.x < width - 1 {
                assert(out@[right_idx] == (Coordinate { x: (position.x + 1) as usize, y: position.y }));
            }
            assert forall|c: Coordinate|
                self.in_bounds(c) && is_orthogonal_neighbor(position, c) implies #[trigger] out@.contains(
                c,
            ) by {
                if c.y + 1 == position.y {
                    assert(c == out@[up_idx]);
                } else if position.y + 1 == c.y {
                    assert(c == out@[down_idx]);
                } else if c.x + 1 == position.x {
                    assert(c == out@[left_idx]);
                } else {
                    assert(c == out@[right_idx]);
                }
            }
        }
        out
    }

    /// The cached town locations.
    pub fn towns(&self) -> (r: &Vec<Coordinate>)
        ensures
            r == &self.towns,
    {
        &self.towns
    }

    /// Rebuilds the town and artifact caches from the grid.
    ///
    /// Must be called whenever the grid is replaced wholesale; the caches are
    /// load-bearing for win checking, not an optimization.
    #[verifier::loop_isolation(false)]
    pub fn cache_special_squares(&mut self)
        requires
            old(self).rectangular(),
        ensures
            final(self).wf(),
            final(self).squares == old(self).squares,
            final(self).orientations == old(self).orientations,
    {
        self.towns = Vec::new();
        self.artifacts = Vec::new();
        let height = self.squares.len();
        let mut y: usize = 0;
        while y < height
            invariant
                y <= height,
                self.squares == old(self).squares,
                self.orientations == old(self).orientations,
                forall|i: int|
                    0 <= i < self.towns@.len() ==> {
                        &&& self.in_bounds(#[trigger] self.towns@[i])
                        &&& self.square_at(self.towns@[i]) is Town
                    },
                forall|i: int|
                    0 <= i < self.artifacts@.len() ==> {
                        &&& self.in_bounds(#[trigger] self.artifacts@[i])
                        &&& self.square_at(self.artifacts@[i]) is Artifact
                    },
                forall|xx: int, yy: int|
                    0 <= yy < y && 0 <= xx < self.width() && (#[trigger] self.squares@[yy]@[xx])
                        is Town ==> self.towns@.contains(
                        Coordinate { x: xx as usize, y: yy as usize },
                    ),
                forall|xx: int, yy: int|
                    0 <= yy < y && 0 <= xx < self.width() && (#[trigger] self.squares@[yy]@[xx])
                        is Artifact ==> self.artifacts@.contains(
                        Coordinate { x: xx as usize, y: yy as usize },
                    ),
            decreases height - y,
        {
            let width = self.squares[y].len();
            let mut x: usize = 0;
            while x < width
                invariant
                    x <= width,
                    y < height,
                    width == self.width(),
                    self.squares == old(self).squares,
                    self.orientations == old(self).orientations,
                    forall|i: int|
                        0 <= i < self.towns@.len() ==> {
                            &&& self.in_bounds(#[trigger] self.towns@[i])
                            &&& self.square_at(self.towns@[i]) is Town
                        },
                    forall|i: int|
                        0 <= i < self.artifacts@.len() ==> {
                            &&& self.in_bounds(#[trigger] self.artifacts@[i])
                            &&& self.square_at(self.artifacts@[i]) is Artifact
                        },
                    forall|xx: int, yy: int|
                        0 <= yy < y && 0 <= xx < self.width() && (#[trigger] self.squares@[yy]@[xx])
                            is Town ==> self.towns@.contains(
                            Coordinate { x: xx as usize, y: yy as usize },
                        ),
                    forall|xx: int, yy: int|
                        0 <= yy < y && 0 <= xx < self.width() && (#[trigger] self.squares@[yy]@[xx])
                            is Artifact ==> self.artifacts@.contains(
                            Coordinate { x: xx as usize, y: yy as usize },
                        ),
                    forall|xx: int|
                        0 <= xx < x && (#[trigger] self.squares@[y as int]@[xx]) is Town
                            ==> self.towns@.contains(Coordinate { x: xx as usize, y }),
                    forall|xx: int|
                        0 <= xx < x && (#[trigger] self.squares@[y as int]@[xx]) is Artifact
                            ==> self.artifacts@.contains(Coordinate { x: xx as usize, y }),
                decreases width - x,
            {
                let coord = Coordinate { x, y };
                let ghost towns_prev = self.towns@;
                let ghost artifacts_prev = self.artifacts@;
                match self.squares[y][x] {
                    Square::Town { .. } => {
                        self.towns.push(coord);
                    },
                    Square::Artifact { .. } => {
                        self.artifacts.push(coord);
                    },
                    _ => {},
                }
                proof {
                    if self.squares@[y as int]@[x as int] is Town {
                        assert(self.towns@[towns_prev.len() as int] == coord);
                        assert(self.towns@.contains(coord));
                    }
                    if self.squares@[y as int]@[x as int] is Artifact {
                        assert(self.artifacts@[artifacts_prev.len() as int] == coord);
                        assert(self.artifacts@.contains(coord));
                    }
                    assert forall|q: Coordinate| towns_prev.contains(q) implies self.towns@.contains(
                        q,
                    ) by {
                        let i = choose|i: int| 0 <= i < towns_prev.len() && towns_prev[i] == q;
                        assert(self.towns@[i] == q);
                    }
                    assert forall|q: Coordinate|
                        artifacts_prev.contains(q) implies self.artifacts@.contains(q) by {
                        let i = choose|i: int|
                            0 <= i < artifacts_prev.len() && artifacts_prev[i] == q;
                        assert(self.artifacts@[i] == q);
                    }
                }
                x = x + 1;
            }
            proof {
                assert forall|xx: int, yy: int|
                    0 <= yy < y + 1 && 0 <= xx < self.width() && (#[trigger] self.squares@[yy]@[xx])
                        is Town implies self.towns@.contains(
                    Coordinate { x: xx as usize, y: yy as usize },
                ) by {
                    if yy == y {
                        assert(self.squares@[y as int]@[xx] is Town);
                    }
                }
                assert forall|xx: int, yy: int|
                    0 <= yy < y + 1 && 0 <= xx < self.width() && (#[trigger] self.squares@[yy]@[xx])
                        is Artifact implies self.artifacts@.contains(
                    Coordinate { x: xx as usize, y: yy as usize },
                ) by {
                    if yy == y {
                        assert(self.squares@[y as int]@[xx] is Artifact);
                    }
                }
            }
            y = y + 1;
        }
    }

    /// The coordinate of `position` as seen from the other end of the board:
    /// mirrored through the grid's center.
    pub fn reciprocal_coordinate(&self, position: Coordinate) -> (r: Coordinate)
        requires
            self.rectangular(),
            self.in_bounds(position),
        ensures
            r.x + position.x + 1 == self.width(),
            r.y + position.y + 1 == self.height(),
    {
        let height = self.squares.len();
        let width = self.squares[0].len();
        Coordinate { x: width - 1 - position.x, y: height - 1 - position.y }
    }
}

} // verus!
