use vstd::prelude::*;

use crate::buffer::PixelBuffer;
use crate::color::Rgba;
use crate::sprite::{lemma_blit_far_away, Sprite};

verus! {

/// Number of tiles in one row of the grid.
pub const TILES_PER_ROW: usize = 16;

/// Edge length of a tile, in pixels.
pub const TILE_SIZE: usize = 16;

/// A scroll offset, subtracted from world coordinates to get screen
/// coordinates.
#[derive(Clone, Copy, Debug, PartialEq, Eq, Structural)]
pub struct Camera {
    pub x: i64,
    pub y: i64,
}

impl Camera {
    /// The camera at offset (x, y).
    pub fn new(x: i64, y: i64) -> (c: Camera)
        ensures
            c == (Camera { x, y }),
    {
        Camera { x, y }
    }

    /// Moves the offset by (dx, dy), each coordinate held to the range of
    /// `i64`.
    pub fn pan(&mut self, dx: i64, dy: i64)
        ensures
            final(self).x == crate::player::clamp_i64(old(self).x + dx),
            final(self).y == crate::player::clamp_i64(old(self).y + dy),
    {
        self.x = saturating_sum(self.x, dx);
        self.y = saturating_sum(self.y, dy);
    }
}

/// `a + b`, held to the range of `i64`.
fn saturating_sum(a: i64, b: i64) -> (r: i64)
    ensures
        r == crate::player::clamp_i64(a + b),
{
    let s: i128 = a as i128 + b as i128;
    if s < i64::MIN as i128 {
        i64::MIN
    } else if s > i64::MAX as i128 {
        i64::MAX
    } else {
        s as i64
    }
}

/// Grid row of the tile at position `index` of the tile sequence.
pub open spec fn tile_row(index: int) -> int {
    index / (TILES_PER_ROW as int)
}

/// Grid column of the tile at position `index` of the tile sequence.
pub open spec fn tile_column(index: int) -> int {
    index % (TILES_PER_ROW as int)
}

/// Screen x of the top-left corner of tile `index`: its world x less the
/// camera's.
pub open spec fn tile_anchor_x(index: int, camera: Camera) -> int {
    tile_column(index) * (TILE_SIZE as int) - camera.x
}

/// Screen y of the top-left corner of tile `index`: its world y less the
/// camera's.
pub open spec fn tile_anchor_y(index: int, camera: Camera) -> int {
    tile_row(index) * (TILE_SIZE as int) - camera.y
}

/// The (row, column) of tile `index` in the grid.
pub fn tile_position(index: usize) -> (pos: (usize, usize))
    ensures
        pos.0 == tile_row(index as int),
        pos.1 == tile_column(index as int),
{
    (index / TILES_PER_ROW, index % TILES_PER_ROW)
}

/// The screen position (x, y) of the top-left corner of tile `index`.
pub fn tile_anchor(index: usize, camera: Camera) -> (anchor: (i128, i128))
    ensures
        anchor.0 == tile_anchor_x(index as int, camera),
        anchor.1 == tile_anchor_y(index as int, camera),
{
    let (row, column) = tile_position(index);
    let x: i128 = (column as i128) * (TILE_SIZE as i128) - camera.x as i128;
    let y: i128 = (row as i128) * (TILE_SIZE as i128) - camera.y as i128;
    (x, y)
}

/// One cell of the tile grid: a sprite and an identifier. Where a tile is
/// drawn follows from its position in the grid's sequence, not from the
/// tile itself.
pub struct Tile {
    pub sprite: Sprite,
    pub id: u8,
}

impl Tile {
    pub open spec fn wf(&self) -> bool {
        self.sprite.wf()
    }

    /// The pixels of a buffer `bw` pixels wide after this tile is drawn at
    /// grid position `index`.
    pub open spec fn drawn_at(&self, pixels: Seq<Rgba>, bw: int, index: int, camera: Camera) -> Seq<
        Rgba,
    > {
        self.sprite.drawn(pixels, bw, tile_anchor_x(index, camera), tile_anchor_y(index, camera))
    }

    /// Draws the tile at grid position `tile_index`, shifted by the camera.
    pub fn draw(&self, buf: &mut PixelBuffer, tile_index: usize, camera: Camera)
        requires
            self.wf(),
            old(buf).wf(),
        ensures
            final(buf).wf(),
            final(buf).spec_width() == old(buf).spec_width(),
            final(buf).spec_height() == old(buf).spec_height(),
            final(buf)@ == self.drawn_at(old(buf)@, old(buf).spec_width(), tile_index as int, camera),
    {
        let (x, y) = tile_anchor(tile_index, camera);
        if i64::MIN as i128 <= x && x <= i64::MAX as i128 && i64::MIN as i128 <= y && y
            <= i64::MAX as i128 {
            self.sprite.draw(buf, x as i64, y as i64);
        } else {
            proof {
                lemma_blit_far_away(
                    buf@,
                    buf.spec_width(),
                    buf.spec_height(),
                    self.sprite@,
                    self.sprite.spec_width(),
                    self.sprite.spec_height(),
                    x as int,
                    y as int,
                );
            }
        }
    }
}

} // verus!
