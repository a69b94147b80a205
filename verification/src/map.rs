//! The map loader: parses a textual level description into entities.
//!
//! Rows are separated by line breaks, cells within a row by single spaces;
//! the whole text and each row are trimmed. Every recognized token becomes
//! one or two entities; any other token aborts the load without creating
//! anything.

use vstd::prelude::*;

use crate::components::BoxColor;
use crate::components::Position;
use crate::entities::create_box;
use crate::entities::create_box_spot;
use crate::entities::create_floor;
use crate::entities::create_player;
use crate::entities::create_wall;
use crate::entities::player_images;
use crate::entities::spawn_box;
use crate::entities::spawn_box_spot;
use crate::entities::spawn_floor;
use crate::entities::spawn_player;
use crate::entities::spawn_wall;
use crate::world::World;
use crate::world::WorldView;

verus! {

/// The characters the loader treats as trimmable whitespace.
pub open spec fn is_ws(c: char) -> bool {
    c == ' ' || c == '\t' || c == '\r' || c == '\n'
}

/// `s` without its leading whitespace.
pub open spec fn trim_front(s: Seq<char>) -> Seq<char>
    decreases s.len(),
{
    if s.len() == 0 {
        s
    } else if is_ws(s[0]) {
        trim_front(s.drop_first())
    } else {
        s
    }
}

/// `s` without its trailing whitespace.
pub open spec fn trim_back(s: Seq<char>) -> Seq<char>
    decreases s.len(),
{
    if s.len() == 0 {
        s
    } else if is_ws(s.last()) {
        trim_back(s.drop_last())
    } else {
        s
    }
}

/// `s` without leading and trailing whitespace.
pub open spec fn trim(s: Seq<char>) -> Seq<char> {
    trim_back(trim_front(s))
}

/// `s` split on `sep`: `n` separators yield `n + 1` segments, in order,
/// separators not included. Always at least one segment.
pub open spec fn split_on(s: Seq<char>, sep: char) -> Seq<Seq<char>>
    decreases s.len(),
{
    if s.len() == 0 {
        seq![Seq::empty()]
    } else if s[0] == sep {
        seq![Seq::<char>::empty()] + split_on(s.drop_first(), sep)
    } else {
        let r = split_on(s.drop_first(), sep);
        seq![seq![s[0]] + r[0]] + r.drop_first()
    }
}

/// Splitting yields at least one segment.
pub proof fn lemma_split_len(s: Seq<char>, sep: char)
    ensures
        split_on(s, sep).len() >= 1,
    decreases s.len(),
{
    if s.len() == 0 {
    } else if s[0] == sep {
        lemma_split_len(s.drop_first(), sep)
    } else {
        lemma_split_len(s.drop_first(), sep)
    }
}

/// Splitting a separator-free text yields exactly that text.
pub proof fn lemma_split_nosep(a: Seq<char>, sep: char)
    requires
        forall|i: int| 0 <= i < a.len() ==> a[i] != sep,
    ensures
        split_on(a, sep) == seq![a],
    decreases a.len(),
{
    if a.len() == 0 {
        assert(a =~= Seq::empty());
        assert(split_on(a, sep) =~= seq![a]);
    } else {
        lemma_split_nosep(a.drop_first(), sep);
        let r = split_on(a.drop_first(), sep);
        assert(seq![a[0]] + a.drop_first() =~= a);
        assert(r.drop_first() =~= Seq::<Seq<char>>::empty());
        assert(split_on(a, sep) =~= seq![a]);
    }
}

/// Splitting at the first separator: a separator-free prefix becomes the
/// first segment, and the rest splits on its own.
pub proof fn lemma_split_first(a: Seq<char>, sep: char, b: Seq<char>)
    requires
        forall|i: int| 0 <= i < a.len() ==> a[i] != sep,
    ensures
        split_on(a + seq![sep] + b, sep) == seq![a] + split_on(b, sep),
    decreases a.len(),
{
    let s = a + seq![sep] + b;
    if a.len() == 0 {
        assert(s[0] == sep);
        assert(s.drop_first() =~= b);
        assert(a =~= Seq::<char>::empty());
        assert(seq![Seq::<char>::empty()] + split_on(b, sep) =~= seq![a] + split_on(b, sep));
    } else {
        assert(s[0] == a[0]);
        assert(s.drop_first() =~= a.drop_first() + seq![sep] + b);
        lemma_split_first(a.drop_first(), sep, b);
        lemma_split_len(b, sep);
        let r = split_on(s.drop_first(), sep);
        assert(r == seq![a.drop_first()] + split_on(b, sep));
        assert(r[0] == a.drop_first());
        assert(seq![a[0]] + r[0] =~= a);
        assert(r.drop_first() =~= split_on(b, sep));
        assert(split_on(s, sep) =~= seq![a] + split_on(b, sep));
    }
}

/// The rows of a level text: the trimmed text split on line breaks, each
/// row then trimmed on its own.
pub open spec fn rows_of(s: Seq<char>) -> Seq<Seq<char>> {
    split_on(trim(s), '\n').map_values(|r: Seq<char>| trim(r))
}

/// The cell tokens of one row: the row split on single spaces.
pub open spec fn tokens_of_row(r: Seq<char>) -> Seq<Seq<char>> {
    split_on(r, ' ')
}

/// What one recognized grid token creates.
#[derive(Clone, Copy, Debug, PartialEq, Eq, Structural)]
pub enum TileKind {
    /// `.`: floor only.
    Floor,
    /// `W`: floor plus wall.
    Wall,
    /// `P`: floor plus player.
    Player,
    /// `B` plus a color code: floor plus box of that color.
    BoxTile(BoxColor),
    /// `S` plus a color code: floor plus box spot of that color.
    SpotTile(BoxColor),
    /// `N`: nothing; the void cell still consumes a grid slot.
    Empty,
}

/// The color a color-code character names, if any.
pub open spec fn color_code(c: char) -> Option<BoxColor> {
    if c == 'R' {
        Some(BoxColor::Red)
    } else if c == 'B' {
        Some(BoxColor::Blue)
    } else {
        None
    }
}

/// The tile a token names, or `None` for an unrecognized token.
pub open spec fn parse_token(t: Seq<char>) -> Option<TileKind> {
    if t.len() == 1 && t[0] == '.' {
        Some(TileKind::Floor)
    } else if t.len() == 1 && t[0] == 'W' {
        Some(TileKind::Wall)
    } else if t.len() == 1 && t[0] == 'P' {
        Some(TileKind::Player)
    } else if t.len() == 1 && t[0] == 'N' {
        Some(TileKind::Empty)
    } else if t.len() == 2 && t[0] == 'B' && color_code(t[1]) is Some {
        Some(TileKind::BoxTile(color_code(t[1])->Some_0))
    } else if t.len() == 2 && t[0] == 'S' && color_code(t[1]) is Some {
        Some(TileKind::SpotTile(color_code(t[1])->Some_0))
    } else {
        None
    }
}

/// Whether `c` is loader whitespace.
fn is_ws_char(c: char) -> (r: bool)
    ensures
        r == is_ws(c),
{
    c == ' ' || c == '\t' || c == '\r' || c == '\n'
}

/// Drop leading and trailing whitespace from `s`.
fn trim_str<'a>(s: &'a str) -> (r: &'a str)
    ensures
        r@ == trim(s@),
{
    let len = s.unicode_len();
    let mut a: usize = 0;
    proof {
        assert(s@.skip(0) =~= s@);
    }
    while a < len && is_ws_char(s.get_char(a))
        invariant
            a <= len,
            len == s@.len(),
            trim_front(s@) == trim_front(s@.skip(a as int)),
        decreases len - a,
    {
        proof {
            let u = s@.skip(a as int);
            assert(u[0] == s@[a as int]);
            assert(u.drop_first() =~= s@.skip(a as int + 1));
        }
        a = a + 1;
    }
    if a == len {
        proof {
            assert(s@.skip(len as int) =~= Seq::empty());
        }
        let r = s.substring_char(a, a);
        proof {
            assert(r@ =~= Seq::empty());
        }
        r
    } else {
        proof {
            let u = s@.skip(a as int);
            assert(u[0] == s@[a as int]);
            assert(trim_front(s@) == u);
        }
        let ghost u = s@.skip(a as int);
        let mut b: usize = len;
        proof {
            assert(u.take(b - a) =~= u);
        }
        while b > a && is_ws_char(s.get_char(b - 1))
            invariant
                a <= b <= len,
                len == s@.len(),
                a < len,
                u == s@.skip(a as int),
                trim_back(u) == trim_back(u.take(b - a)),
            decreases b,
        {
            proof {
                let v = u.take(b - a);
                assert(v.last() == s@[b as int - 1]);
                assert(v.drop_last() =~= u.take(b - a - 1));
            }
            b = b - 1;
        }
        if b == a {
            proof {
                assert(u.take(0) =~= Seq::empty());
            }
            let r = s.substring_char(a, a);
            proof {
                assert(r@ =~= Seq::empty());
                assert(trim(s@) =~= Seq::empty());
            }
            r
        } else {
            proof {
                let v = u.take(b - a);
                assert(v.last() == s@[b as int - 1]);
                assert(trim_back(v) == v);
            }
            let r = s.substring_char(a, b);
            proof {
                assert(r@ =~= u.take(b - a));
            }
            r
        }
    }
}

/// Split `s` on `sep`, keeping empty segments.
fn split_str<'a>(s: &'a str, sep: char) -> (r: Vec<&'a str>)
    ensures
        r@.map_values(|x: &str| x@) == split_on(s@, sep),
{
    let len = s.unicode_len();
    let mut done: Vec<&'a str> = Vec::new();
    let mut p: usize = 0;
    let mut i: usize = 0;
    proof {
        assert(s@.skip(0) =~= s@);
        assert(done@.map_values(|x: &str| x@) =~= Seq::<Seq<char>>::empty());
    }
    while i < len
        invariant
            p <= i <= len,
            len == s@.len(),
            forall|k: int| p <= k < i ==> s@[k] != sep,
            split_on(s@, sep) == done@.map_values(|x: &str| x@) + split_on(
                s@.skip(p as int),
                sep,
            ),
        decreases len - i,
    {
        if s.get_char(i) == sep {
            let seg = s.substring_char(p, i);
            proof {
                let a = s@.subrange(p as int, i as int);
                let b = s@.skip(i as int + 1);
                assert(s@.skip(p as int) =~= a + seq![sep] + b);
                lemma_split_first(a, sep, b);
                assert((done@.push(seg)).map_values(|x: &str| x@) =~= done@.map_values(
                    |x: &str| x@,
                ).push(seg@));
                assert(done@.map_values(|x: &str| x@).push(seg@) + split_on(b, sep) =~= done@
                    .map_values(|x: &str| x@) + (seq![a] + split_on(b, sep)));
            }
            done.push(seg);
            p = i + 1;
        }
        i = i + 1;
    }
    let seg = s.substring_char(p, len);
    proof {
        let a = s@.subrange(p as int, len as int);
        assert(a =~= s@.skip(p as int));
        lemma_split_nosep(a, sep);
        assert((done@.push(seg)).map_values(|x: &str| x@) =~= done@.map_values(|x: &str| x@).push(
            seg@,
        ));
        assert(done@.map_values(|x: &str| x@).push(seg@) =~= done@.map_values(|x: &str| x@) + seq![
            a,
        ]);
    }
    done.push(seg);
    done
}

/// Parse one cell token.
fn parse_token_str(t: &str) -> (r: Option<TileKind>)
    ensures
        r == parse_token(t@),
{
    let len = t.unicode_len();
    if len == 1 {
        let c = t.get_char(0);
        if c == '.' {
            Some(TileKind::Floor)
        } else if c == 'W' {
            Some(TileKind::Wall)
        } else if c == 'P' {
            Some(TileKind::Player)
        } else if c == 'N' {
            Some(TileKind::Empty)
        } else {
            None
        }
    } else if len == 2 {
        let c0 = t.get_char(0);
        let c1 = t.get_char(1);
        let color = if c1 == 'R' {
            Some(BoxColor::Red)
        } else if c1 == 'B' {
            Some(BoxColor::Blue)
        } else {
            None
        };
        if c0 == 'B' {
            match color {
                Some(cc) => Some(TileKind::BoxTile(cc)),
                None => None,
            }
        } else if c0 == 'S' {
            match color {
                Some(cc) => Some(TileKind::SpotTile(cc)),
                None => None,
            }
        } else {
            None
        }
    } else {
        None
    }
}

/// The parsed grid: every row's tokens through the token grammar. Only
/// meaningful where every token parses.
pub open spec fn grid_of(s: Seq<char>) -> Seq<Seq<TileKind>> {
    rows_of(s).map_values(
        |r: Seq<char>| tokens_of_row(r).map_values(|t: Seq<char>| parse_token(t)->Some_0),
    )
}

/// The token at row `y`, column `x` of the level text.
pub open spec fn token_at(s: Seq<char>, y: int, x: int) -> Seq<char> {
    tokens_of_row(rows_of(s)[y])[x]
}

/// Whether `(y, x)` names a grid slot of the level text.
pub open spec fn in_grid(s: Seq<char>, y: int, x: int) -> bool {
    0 <= y < rows_of(s).len() && 0 <= x < tokens_of_row(rows_of(s)[y]).len()
}

/// Whether every grid slot holds a recognized token.
pub open spec fn all_tokens_valid(s: Seq<char>) -> bool {
    forall|y: int, x: int| in_grid(s, y, x) ==> #[trigger] parse_token(token_at(s, y, x)) is Some
}

/// Whether the grid's dimensions do not fit the `u8` cell coordinates.
pub open spec fn oversized(s: Seq<char>) -> bool {
    ||| rows_of(s).len() > 255
    ||| exists|y: int|
        0 <= y < rows_of(s).len() && #[trigger] tokens_of_row(rows_of(s)[y]).len() > 255
}

/// The store after the entities of one cell are created: every kind but the
/// void gets a floor tile first, exactly as the factories build them.
pub open spec fn apply_cell(w: WorldView, k: TileKind, x: u8, y: u8) -> WorldView {
    let p = Position { x: x, y: y, z: 0 };
    match k {
        TileKind::Floor => spawn_floor(w, p),
        TileKind::Wall => spawn_wall(spawn_floor(w, p), p),
        TileKind::Player => spawn_player(spawn_floor(w, p), p),
        TileKind::BoxTile(c) => spawn_box(spawn_floor(w, p), p, c),
        TileKind::SpotTile(c) => spawn_box_spot(spawn_floor(w, p), p, c),
        TileKind::Empty => w,
    }
}

/// The store after the entities of one row are created, cells left to
/// right.
pub open spec fn apply_row(w: WorldView, row: Seq<TileKind>, y: u8) -> WorldView
    decreases row.len(),
{
    if row.len() == 0 {
        w
    } else {
        apply_cell(apply_row(w, row.drop_last(), y), row.last(), (row.len() - 1) as u8, y)
    }
}

/// The store after the entities of a whole grid are created, rows top to
/// bottom.
pub open spec fn apply_grid(w: WorldView, grid: Seq<Seq<TileKind>>) -> WorldView
    decreases grid.len(),
{
    if grid.len() == 0 {
        w
    } else {
        apply_row(apply_grid(w, grid.drop_last()), grid.last(), (grid.len() - 1) as u8)
    }
}

/// Why a level failed to load.
#[derive(Debug, PartialEq, Eq)]
pub enum MapError {
    /// A grid slot held a token outside the grammar; carries the token and
    /// its row and column. Nothing was created from the attempt.
    InvalidMapToken { token: String, row: usize, col: usize },
    /// The grid has more than 255 rows, or some row more than 255 cells, so
    /// its coordinates do not fit the cell coordinate type. Nothing was
    /// created from the attempt.
    DimensionsTooLarge,
}

/// Everything [`load_map`] promises, as a relation between the store before
/// the call, the store after it, the level text, and the result.
pub open spec fn load_map_post(
    w0: WorldView,
    w1: WorldView,
    s: Seq<char>,
    r: Result<(u8, u8), MapError>,
) -> bool {
    match r {
        Ok(dims) => {
            &&& all_tokens_valid(s)
            &&& !oversized(s)
            &&& dims.0 == rows_of(s).len()
            &&& dims.1 == tokens_of_row(rows_of(s).last()).len()
            &&& w1 == apply_grid(w0, grid_of(s))
        },
        Err(e) => match e {
            MapError::InvalidMapToken { token, row, col } => {
                &&& w1 == w0
                &&& in_grid(s, row as int, col as int)
                &&& parse_token(token_at(s, row as int, col as int)) is None
                &&& token@ == token_at(s, row as int, col as int)
                &&& forall|y: int, x: int|
                    in_grid(s, y, x) && (y < row as int || (y == row as int && x < col as int))
                        ==> #[trigger] parse_token(token_at(s, y, x)) is Some
            },
            MapError::DimensionsTooLarge => {
                &&& w1 == w0
                &&& all_tokens_valid(s)
                &&& oversized(s)
            },
        },
    }
}

/// Parse the level text into a grid of tiles, or report the first
/// unrecognized token in row-major order.
fn parse_level(s: &str) -> (r: Result<Vec<Vec<TileKind>>, MapError>)
    ensures
        match r {
            Ok(g) => {
                &&& all_tokens_valid(s@)
                &&& g@.map_values(|row: Vec<TileKind>| row@) == grid_of(s@)
            },
            Err(e) => match e {
                MapError::InvalidMapToken { token, row, col } => {
                    &&& in_grid(s@, row as int, col as int)
                    &&& parse_token(token_at(s@, row as int, col as int)) is None
                    &&& token@ == token_at(s@, row as int, col as int)
                    &&& forall|y: int, x: int|
                        in_grid(s@, y, x) && (y < row as int || (y == row as int && x
                            < col as int)) ==> #[trigger] parse_token(token_at(s@, y, x)) is Some
                },
                MapError::DimensionsTooLarge => false,
            },
        },
{
    let trimmed = trim_str(s);
    let raw_rows = split_str(trimmed, '\n');
    let mut rows: Vec<&str> = Vec::new();
    let mut yi: usize = 0;
    proof {
        assert(rows@.map_values(|x: &str| x@) =~= rows_of(s@).take(0));
    }
    while yi < raw_rows.len()
        invariant
            yi <= raw_rows@.len(),
            raw_rows@.map_values(|x: &str| x@) == split_on(trim(s@), '\n'),
            rows@.len() == yi,
            rows@.map_values(|x: &str| x@) == rows_of(s@).take(yi as int),
        decreases raw_rows@.len() - yi,
    {
        let t = trim_str(raw_rows[yi]);
        proof {
            assert(raw_rows@.map_values(|x: &str| x@)[yi as int] == raw_rows@[yi as int]@);
            assert(rows_of(s@)[yi as int] == trim(split_on(trim(s@), '\n')[yi as int]));
            assert((rows@.push(t)).map_values(|x: &str| x@) =~= rows_of(s@).take(yi as int + 1));
        }
        rows.push(t);
        yi = yi + 1;
    }
    proof {
        assert(rows_of(s@).take(rows_of(s@).len() as int) =~= rows_of(s@));
        assert(rows@.map_values(|x: &str| x@) == rows_of(s@));
        assert(rows@.len() == rows_of(s@).len());
    }
    let mut grid: Vec<Vec<TileKind>> = Vec::new();
    let mut y: usize = 0;
    proof {
        assert(grid@.map_values(|row: Vec<TileKind>| row@) =~= grid_of(s@).take(0));
    }
    while y < rows.len()
        invariant
            y <= rows@.len(),
            rows@.map_values(|x: &str| x@) == rows_of(s@),
            rows@.len() == rows_of(s@).len(),
            grid@.len() == y,
            grid@.map_values(|row: Vec<TileKind>| row@) == grid_of(s@).take(y as int),
            forall|yy: int, x: int|
                in_grid(s@, yy, x) && yy < y ==> #[trigger] parse_token(token_at(s@, yy, x))
                    is Some,
        decreases rows@.len() - y,
    {
        let row_str = rows[y];
        proof {
            assert(rows@.map_values(|x: &str| x@)[y as int] == rows@[y as int]@);
        }
        let toks = split_str(row_str, ' ');
        let mut row_tiles: Vec<TileKind> = Vec::new();
        let mut x: usize = 0;
        proof {
            assert(row_tiles@ =~= grid_of(s@)[y as int].take(0));
        }
        while x < toks.len()
            invariant
                x <= toks@.len(),
                y < rows@.len(),
                rows@.map_values(|xx: &str| xx@) == rows_of(s@),
                rows@.len() == rows_of(s@).len(),
                toks@.map_values(|xx: &str| xx@) == tokens_of_row(rows_of(s@)[y as int]),
                row_tiles@ == grid_of(s@)[y as int].take(x as int),
                forall|yy: int, xx: int|
                    in_grid(s@, yy, xx) && yy < y ==> #[trigger] parse_token(token_at(s@, yy, xx))
                        is Some,
                forall|xx: int|
                    0 <= xx < x ==> #[trigger] parse_token(token_at(s@, y as int, xx)) is Some,
            decreases toks@.len() - x,
        {
            proof {
                assert(toks@.map_values(|xx: &str| xx@)[x as int] == toks@[x as int]@);
                assert(toks@[x as int]@ == token_at(s@, y as int, x as int));
            }
            match parse_token_str(toks[x]) {
                Some(k) => {
                    proof {
                        assert(grid_of(s@)[y as int] == tokens_of_row(rows_of(s@)[y as int])
                            .map_values(|t: Seq<char>| parse_token(t)->Some_0));
                        assert(grid_of(s@)[y as int][x as int] == k);
                        assert(row_tiles@.push(k) =~= grid_of(s@)[y as int].take(x as int + 1));
                    }
                    row_tiles.push(k);
                },
                None => {
                    let token = toks[x].to_owned();
                    return Err(MapError::InvalidMapToken { token, row: y, col: x });
                },
            }
            x = x + 1;
        }
        proof {
            assert(grid_of(s@)[y as int].len() == tokens_of_row(rows_of(s@)[y as int]).len());
            assert(row_tiles@ =~= grid_of(s@)[y as int]);
            assert((grid@.push(row_tiles)).map_values(|row: Vec<TileKind>| row@) =~= grid_of(
                s@,
            ).take(y as int + 1));
        }
        grid.push(row_tiles);
        y = y + 1;
    }
    proof {
        assert(grid_of(s@).len() == rows_of(s@).len());
        assert(grid_of(s@).take(grid_of(s@).len() as int) =~= grid_of(s@));
    }
    Ok(grid)
}

/// Load a level: parse the textual grid, then materialize every recognized
/// token's entities, and return the `(row_count, column_count)` of the
/// parsed grid so the host can size its viewport. An unrecognized token or
/// an oversized grid aborts the load with nothing created.
pub fn load_map(world: &mut World, map_string: String) -> (r: Result<(u8, u8), MapError>)
    requires
        old(world)@.wf(),
    ensures
        final(world)@.wf(),
        load_map_post(old(world)@, final(world)@, map_string@, r),
{
    let ghost s = map_string@;
    let grid = match parse_level(map_string.as_str()) {
        Ok(g) => g,
        Err(e) => {
            return Err(e);
        },
    };
    let rows_n = grid.len();
    proof {
        lemma_split_len(trim(s), '\n');
        assert(rows_of(s).len() >= 1);
    }
    if rows_n > 255 {
        return Err(MapError::DimensionsTooLarge);
    }
    let mut y: usize = 0;
    while y < rows_n
        invariant
            s == map_string@,
            world@ == old(world)@,
            world@.wf(),
            all_tokens_valid(s),
            y <= rows_n,
            rows_n <= 255,
            rows_n == grid@.len(),
            grid@.map_values(|row: Vec<TileKind>| row@) == grid_of(s),
            rows_n == rows_of(s).len(),
            forall|yy: int|
                0 <= yy < y ==> #[trigger] tokens_of_row(rows_of(s)[yy]).len() <= 255,
        decreases rows_n - y,
    {
        proof {
            assert(grid@.map_values(|row: Vec<TileKind>| row@)[y as int] == grid@[y as int]@);
            assert(grid@[y as int]@.len() == tokens_of_row(rows_of(s)[y as int]).len());
        }
        if grid[y].len() > 255 {
            return Err(MapError::DimensionsTooLarge);
        }
        y = y + 1;
    }
    let cols = grid[rows_n - 1].len();
    proof {
        assert(grid@.map_values(|row: Vec<TileKind>| row@)[rows_n as int - 1] == grid@[rows_n as int
            - 1]@);
        assert(cols == tokens_of_row(rows_of(s).last()).len());
        assert(!oversized(s));
    }
    let ghost w0 = world@;
    let ghost gv = grid@.map_values(|row: Vec<TileKind>| row@);
    let mut yc: usize = 0;
    proof {
        assert(gv.take(0) =~= Seq::<Seq<TileKind>>::empty());
    }
    while yc < rows_n
        invariant
            w0 == old(world)@,
            world@.wf(),
            yc <= rows_n,
            rows_n == grid@.len(),
            rows_n <= 255,
            gv == grid@.map_values(|row: Vec<TileKind>| row@),
            gv == grid_of(s),
            forall|yy: int| 0 <= yy < rows_n ==> #[trigger] gv[yy].len() <= 255,
            world@ == apply_grid(w0, gv.take(yc as int)),
        decreases rows_n - yc,
    {
        let row_len = grid[yc].len();
        proof {
            assert(gv[yc as int] == grid@[yc as int]@);
        }
        let mut xc: usize = 0;
        proof {
            assert(gv[yc as int].take(0) =~= Seq::<TileKind>::empty());
        }
        while xc < row_len
            invariant
                w0 == old(world)@,
                world@.wf(),
                yc < rows_n,
                xc <= row_len,
                rows_n == grid@.len(),
                rows_n <= 255,
                gv == grid@.map_values(|row: Vec<TileKind>| row@),
                gv == grid_of(s),
                row_len == gv[yc as int].len(),
                row_len <= 255,
                world@ == apply_row(apply_grid(w0, gv.take(yc as int)), gv[yc as int].take(
                    xc as int,
                ), yc as u8),
            decreases row_len - xc,
        {
            let k = grid[yc][xc];
            proof {
                assert(gv[yc as int] == grid@[yc as int]@);
                assert(k == gv[yc as int][xc as int]);
            }
            let pos = Position { x: xc as u8, y: yc as u8, z: 0 };
            let ghost wpre = world@;
            match k {
                TileKind::Floor => create_floor(world, pos),
                TileKind::Wall => {
                    create_floor(world, pos);
                    create_wall(world, pos);
                },
                TileKind::Player => {
                    create_floor(world, pos);
                    create_player(world, pos);
                },
                TileKind::BoxTile(c) => {
                    create_floor(world, pos);
                    create_box(world, pos, c);
                },
                TileKind::SpotTile(c) => {
                    create_floor(world, pos);
                    create_box_spot(world, pos, c);
                },
                TileKind::Empty => {},
            }
            proof {
                assert(world@ == apply_cell(wpre, k, xc as u8, yc as u8));
                let prefix = gv[yc as int].take(xc as int + 1);
                assert(prefix.drop_last() =~= gv[yc as int].take(xc as int));
                assert(prefix.last() == k);
            }
            xc = xc + 1;
        }
        proof {
            assert(gv[yc as int].take(row_len as int) =~= gv[yc as int]);
            let prefix = gv.take(yc as int + 1);
            assert(prefix.drop_last() =~= gv.take(yc as int));
            assert(prefix.last() == gv[yc as int]);
        }
        yc = yc + 1;
    }
    proof {
        assert(gv.take(rows_n as int) =~= gv);
    }
    Ok((rows_n as u8, cols as u8))
}

/// The level every fresh game starts with.
pub const DEFAULT_MAP: &'static str = "
    N N W W W W W W
    W W W . . . . W
    W . . . BR BB . W
    W . . . . . . W
    W . P . . . . W
    W . . . . . . W
    W . . SR SB . . W
    W . . . . . . W
    W W W W W W W W
    ";

/// Load the default level into the world.
pub fn initialize_level(world: &mut World) -> (r: Result<(u8, u8), MapError>)
    requires
        old(world)@.wf(),
    ensures
        final(world)@.wf(),
        load_map_post(old(world)@, final(world)@, DEFAULT_MAP@, r),
{
    load_map(world, DEFAULT_MAP.to_owned())
}

/// Whether some live floor entity sits at cell `(x, y)`, on the floor
/// layer.
pub open spec fn floor_entity_at(w: WorldView, x: u8, y: u8) -> bool {
    exists|i: int|
        #![trigger w.alive[i]]
        0 <= i < w.num() && w.alive[i] && w.floors[i] && w.positions[i] == Some(
            Position { x: x, y: y, z: crate::FLOOR_Z },
        )
}

/// Whether some live wall entity sits at cell `(x, y)`.
pub open spec fn wall_entity_at(w: WorldView, x: u8, y: u8) -> bool {
    exists|i: int|
        #![trigger w.alive[i]]
        0 <= i < w.num() && w.alive[i] && w.walls[i] && w.positions[i] == Some(
            Position { x: x, y: y, z: crate::WALL_Z },
        )
}

/// Whether some live player entity sits at cell `(x, y)`.
pub open spec fn player_entity_at(w: WorldView, x: u8, y: u8) -> bool {
    exists|i: int|
        #![trigger w.alive[i]]
        0 <= i < w.num() && w.alive[i] && w.players[i] && w.positions[i] == Some(
            Position { x: x, y: y, z: crate::PLAYER_Z },
        )
}

/// Whether some live box of color `c` sits at cell `(x, y)`.
pub open spec fn box_entity_at(w: WorldView, x: u8, y: u8, c: BoxColor) -> bool {
    exists|i: int|
        #![trigger w.alive[i]]
        0 <= i < w.num() && w.alive[i] && w.boxes[i] == Some(crate::components::GameBox { color: c })
            && w.positions[i] == Some(Position { x: x, y: y, z: crate::BOX_Z })
}

/// Whether some live box spot of color `c` sits at cell `(x, y)`.
pub open spec fn spot_entity_at(w: WorldView, x: u8, y: u8, c: BoxColor) -> bool {
    exists|i: int|
        #![trigger w.alive[i]]
        0 <= i < w.num() && w.alive[i] && w.box_spots[i] == Some(
            crate::components::BoxSpot { color: c },
        ) && w.positions[i] == Some(Position { x: x, y: y, z: crate::BOX_SPOT_Z })
}

/// Applying one cell never disturbs the entities that already exist.
pub proof fn lemma_apply_cell_extends(w: WorldView, k: TileKind, x: u8, y: u8)
    requires
        w.wf(),
    ensures
        apply_cell(w, k, x, y).num() >= w.num(),
        forall|i: int| 0 <= i < w.num() ==> #[trigger] apply_cell(w, k, x, y).same_entity_at(w, i),
        apply_cell(w, k, x, y).wf(),
{
    let w1 = apply_cell(w, k, x, y);
    assert forall|i: int| 0 <= i < w.num() implies #[trigger] w1.same_entity_at(w, i) by {
        match k {
            TileKind::Floor => {},
            TileKind::Wall => {},
            TileKind::Player => {},
            TileKind::BoxTile(c) => {},
            TileKind::SpotTile(c) => {},
            TileKind::Empty => {},
        }
    }
    assert(player_images().len() == 4);
    assert(w1.wf());
}

/// Applying a row never disturbs the entities that already exist.
pub proof fn lemma_apply_row_extends(w: WorldView, row: Seq<TileKind>, y: u8)
    requires
        w.wf(),
    ensures
        apply_row(w, row, y).num() >= w.num(),
        forall|i: int| 0 <= i < w.num() ==> #[trigger] apply_row(w, row, y).same_entity_at(w, i),
        apply_row(w, row, y).wf(),
    decreases row.len(),
{
    if row.len() == 0 {
        assert forall|i: int| 0 <= i < w.num() implies #[trigger] apply_row(
            w,
            row,
            y,
        ).same_entity_at(w, i) by {}
    } else {
        lemma_apply_row_extends(w, row.drop_last(), y);
        let wb = apply_row(w, row.drop_last(), y);
        lemma_apply_cell_extends(wb, row.last(), (row.len() - 1) as u8, y);
        assert forall|i: int| 0 <= i < w.num() implies #[trigger] apply_row(
            w,
            row,
            y,
        ).same_entity_at(w, i) by {
            assert(wb.same_entity_at(w, i));
            assert(apply_row(w, row, y).same_entity_at(wb, i));
        }
    }
}

/// Applying a grid never disturbs the entities that already exist.
pub proof fn lemma_apply_grid_extends(w: WorldView, grid: Seq<Seq<TileKind>>)
    requires
        w.wf(),
    ensures
        apply_grid(w, grid).num() >= w.num(),
        forall|i: int| 0 <= i < w.num() ==> #[trigger] apply_grid(w, grid).same_entity_at(w, i),
        apply_grid(w, grid).wf(),
    decreases grid.len(),
{
    if grid.len() == 0 {
        assert forall|i: int| 0 <= i < w.num() implies #[trigger] apply_grid(w, grid).same_entity_at(
            w,
            i,
        ) by {}
    } else {
        lemma_apply_grid_extends(w, grid.drop_last());
        let wb = apply_grid(w, grid.drop_last());
        lemma_apply_row_extends(wb, grid.last(), (grid.len() - 1) as u8);
        assert forall|i: int| 0 <= i < w.num() implies #[trigger] apply_grid(w, grid).same_entity_at(
            w,
            i,
        ) by {
            assert(wb.same_entity_at(w, i));
            assert(apply_grid(w, grid).same_entity_at(wb, i));
        }
    }
}

/// An extension of the store keeps every cell-entity fact that held before.
proof fn lemma_extension_keeps_cell_entities(w1: WorldView, w2: WorldView, x: u8, y: u8)
    requires
        w2.num() >= w1.num(),
        forall|i: int| 0 <= i < w1.num() ==> #[trigger] w2.same_entity_at(w1, i),
    ensures
        floor_entity_at(w1, x, y) ==> floor_entity_at(w2, x, y),
        wall_entity_at(w1, x, y) ==> wall_entity_at(w2, x, y),
        player_entity_at(w1, x, y) ==> player_entity_at(w2, x, y),
        forall|c: BoxColor| box_entity_at(w1, x, y, c) ==> #[trigger] box_entity_at(w2, x, y, c),
        forall|c: BoxColor| spot_entity_at(w1, x, y, c) ==> #[trigger] spot_entity_at(w2, x, y, c),
{
    if floor_entity_at(w1, x, y) {
        let i = choose|i: int|
            #![trigger w1.alive[i]]
            0 <= i < w1.num() && w1.alive[i] && w1.floors[i] && w1.positions[i] == Some(
                Position { x: x, y: y, z: crate::FLOOR_Z },
            );
        assert(w2.same_entity_at(w1, i));
        assert(w2.alive[i]);
    }
    if wall_entity_at(w1, x, y) {
        let i = choose|i: int|
            #![trigger w1.alive[i]]
            0 <= i < w1.num() && w1.alive[i] && w1.walls[i] && w1.positions[i] == Some(
                Position { x: x, y: y, z: crate::WALL_Z },
            );
        assert(w2.same_entity_at(w1, i));
        assert(w2.alive[i]);
    }
    if player_entity_at(w1, x, y) {
        let i = choose|i: int|
            #![trigger w1.alive[i]]
            0 <= i < w1.num() && w1.alive[i] && w1.players[i] && w1.positions[i] == Some(
                Position { x: x, y: y, z: crate::PLAYER_Z },
            );
        assert(w2.same_entity_at(w1, i));
        assert(w2.alive[i]);
    }
    assert forall|c: BoxColor| box_entity_at(w1, x, y, c) implies #[trigger] box_entity_at(
        w2,
        x,
        y,
        c,
    ) by {
        let i = choose|i: int|
            #![trigger w1.alive[i]]
            0 <= i < w1.num() && w1.alive[i] && w1.boxes[i] == Some(
                crate::components::GameBox { color: c },
            ) && w1.positions[i] == Some(Position { x: x, y: y, z: crate::BOX_Z });
        assert(w2.same_entity_at(w1, i));
        assert(w2.alive[i]);
    }
    assert forall|c: BoxColor| spot_entity_at(w1, x, y, c) implies #[trigger] spot_entity_at(
        w2,
        x,
        y,
        c,
    ) by {
        let i = choose|i: int|
            #![trigger w1.alive[i]]
            0 <= i < w1.num() && w1.alive[i] && w1.box_spots[i] == Some(
                crate::components::BoxSpot { color: c },
            ) && w1.positions[i] == Some(Position { x: x, y: y, z: crate::BOX_SPOT_Z });
        assert(w2.same_entity_at(w1, i));
        assert(w2.alive[i]);
    }
}

/// Every non-void cell of a row materializes: a floor entity at the cell,
/// plus the cell's kind-specific entity.
proof fn lemma_row_cells_materialized(w: WorldView, row: Seq<TileKind>, y: u8, x: int)
    requires
        w.wf(),
        row.len() <= 256,
        0 <= x < row.len(),
        row[x] != TileKind::Empty,
    ensures
        floor_entity_at(apply_row(w, row, y), x as u8, y),
        row[x] == TileKind::Wall ==> wall_entity_at(apply_row(w, row, y), x as u8, y),
        row[x] == TileKind::Player ==> player_entity_at(apply_row(w, row, y), x as u8, y),
        forall|c: BoxColor|
            row[x] == TileKind::BoxTile(c) ==> #[trigger] box_entity_at(
                apply_row(w, row, y),
                x as u8,
                y,
                c,
            ),
        forall|c: BoxColor|
            row[x] == TileKind::SpotTile(c) ==> #[trigger] spot_entity_at(
                apply_row(w, row, y),
                x as u8,
                y,
                c,
            ),
    decreases row.len(),
{
    let wr = apply_row(w, row, y);
    if x == row.len() - 1 {
        let wb = apply_row(w, row.drop_last(), y);
        lemma_apply_row_extends(w, row.drop_last(), y);
        assert(wb.wf());
        let xb = (row.len() - 1) as u8;
        assert(wr == apply_cell(wb, row[x], xb, y));
        let p = Position { x: xb, y: y, z: 0 };
        let wf1 = spawn_floor(wb, p);
        let fid = wb.num();
        assert(wf1.alive[fid] && wf1.floors[fid] && wf1.positions[fid] == Some(
            Position { x: xb, y: y, z: crate::FLOOR_Z },
        ));
        match row[x] {
            TileKind::Floor => {
                assert(wr.alive[fid]);
            },
            TileKind::Wall => {
                assert(wr.alive[fid] && wr.floors[fid]);
                assert(wr.alive[fid + 1] && wr.walls[fid + 1]);
            },
            TileKind::Player => {
                assert(wr.alive[fid] && wr.floors[fid]);
                assert(wr.alive[fid + 1] && wr.players[fid + 1]);
            },
            TileKind::BoxTile(c) => {
                assert(wr.alive[fid] && wr.floors[fid]);
                assert(wr.alive[fid + 1] && wr.boxes[fid + 1] == Some(
                    crate::components::GameBox { color: c },
                ));
            },
            TileKind::SpotTile(c) => {
                assert(wr.alive[fid] && wr.floors[fid]);
                assert(wr.alive[fid + 1] && wr.box_spots[fid + 1] == Some(
                    crate::components::BoxSpot { color: c },
                ));
            },
            TileKind::Empty => {},
        }
    } else {
        lemma_row_cells_materialized(w, row.drop_last(), y, x);
        let wb = apply_row(w, row.drop_last(), y);
        lemma_apply_row_extends(w, row.drop_last(), y);
        lemma_apply_cell_extends(wb, row.last(), (row.len() - 1) as u8, y);
        assert(row.drop_last()[x] == row[x]);
        lemma_extension_keeps_cell_entities(wb, wr, x as u8, y);
    }
}

/// Every non-void cell of a loaded grid materializes: a floor entity at
/// `(x, y)`, plus the cell's kind-specific entity at the same cell.
pub proof fn lemma_grid_cells_materialized(w: WorldView, grid: Seq<Seq<TileKind>>, y: int, x: int)
    requires
        w.wf(),
        grid.len() <= 256,
        0 <= y < grid.len(),
        forall|yy: int| 0 <= yy < grid.len() ==> #[trigger] grid[yy].len() <= 256,
        0 <= x < grid[y].len(),
        grid[y][x] != TileKind::Empty,
    ensures
        floor_entity_at(apply_grid(w, grid), x as u8, y as u8),
        grid[y][x] == TileKind::Wall ==> wall_entity_at(apply_grid(w, grid), x as u8, y as u8),
        grid[y][x] == TileKind::Player ==> player_entity_at(apply_grid(w, grid), x as u8, y as u8),
        forall|c: BoxColor|
            grid[y][x] == TileKind::BoxTile(c) ==> #[trigger] box_entity_at(
                apply_grid(w, grid),
                x as u8,
                y as u8,
                c,
            ),
        forall|c: BoxColor|
            grid[y][x] == TileKind::SpotTile(c) ==> #[trigger] spot_entity_at(
                apply_grid(w, grid),
                x as u8,
                y as u8,
                c,
            ),
    decreases grid.len(),
{
    let wg = apply_grid(w, grid);
    if y == grid.len() - 1 {
        let wb = apply_grid(w, grid.drop_last());
        lemma_apply_grid_extends(w, grid.drop_last());
        assert(wb.wf());
        assert(wg == apply_row(wb, grid.last(), (grid.len() - 1) as u8));
        lemma_row_cells_materialized(wb, grid.last(), (grid.len() - 1) as u8, x);
    } else {
        lemma_grid_cells_materialized(w, grid.drop_last(), y, x);
        let wb = apply_grid(w, grid.drop_last());
        lemma_apply_grid_extends(w, grid.drop_last());
        lemma_apply_row_extends(wb, grid.last(), (grid.len() - 1) as u8);
        assert(grid.drop_last()[y] == grid[y]);
        lemma_extension_keeps_cell_entities(wb, wg, x as u8, y as u8);
    }
}

} // verus!
