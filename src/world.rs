use vstd::prelude::*;

use crate::buffer::{filled, PixelBuffer};
use crate::color::Rgba;
use crate::input::{stepped, InputState};
use crate::level::{level_slots, parse_level};
use crate::player::{Body, Player};
use crate::sprite::Sprite;
use crate::tile::{Camera, Tile};

verus! {

/// The colour a frame is cleared to before anything is drawn: opaque black.
pub open spec fn background() -> Rgba {
    Rgba { r: 0, g: 0, b: 0, a: 255 }
}

/// The colour a frame is cleared to before anything is drawn.
pub fn background_color() -> (c: Rgba)
    ensures
        c == background(),
{
    Rgba { r: 0, g: 0, b: 0, a: 255 }
}

/// The player's sprite with its body replaced by `body`.
pub open spec fn with_body(p: Player, body: Body) -> Player {
    Player { body, ..p }
}

/// A tile grid and at most one player.
///
/// The grid is a palette of tiles and a sequence of palette slots: the tile
/// at grid position `i` is `palette[slots[i]]`, drawn at the place that
/// position `i` has in a grid `TILES_PER_ROW` tiles wide.
pub struct World {
    palette: Vec<Tile>,
    slots: Vec<usize>,
    player: Option<Player>,
}

impl World {
    /// The tiles that grid positions can refer to.
    pub closed spec fn spec_palette(&self) -> Seq<Tile> {
        self.palette@
    }

    /// The palette slot of each grid position, in grid order.
    pub closed spec fn spec_slots(&self) -> Seq<usize> {
        self.slots@
    }

    /// The player, if there is one.
    pub closed spec fn spec_player(&self) -> Option<Player> {
        self.player
    }

    /// The palette is not empty, every slot names a palette entry, and every
    /// tile and the player are well formed.
    pub open spec fn wf(&self) -> bool {
        &&& self.spec_palette().len() >= 1
        &&& forall|t: int|
            0 <= t < self.spec_palette().len() ==> #[trigger] self.spec_palette()[t].wf()
        &&& forall|i: int|
            0 <= i < self.spec_slots().len() ==> #[trigger] self.spec_slots()[i]
                < self.spec_palette().len()
        &&& (self.spec_player() is Some ==> self.spec_player()->0.wf())
    }

    /// A world that keeps the palette and grid of a well-formed one, with a
    /// well-formed player or none, is well formed.
    proof fn lemma_same_grid(a: World, b: World)
        requires
            a.wf(),
            b.palette@ == a.palette@,
            b.slots@ == a.slots@,
            b.player is Some ==> b.player->0.wf(),
        ensures
            b.wf(),
    {
        assert forall|i: int| 0 <= i < b.spec_slots().len() implies #[trigger] b.spec_slots()[i]
            < b.spec_palette().len() by {
            assert(a.spec_slots()[i] < a.spec_palette().len());
        }
    }

    /// The tile at grid position `i`.
    pub open spec fn tile_at(&self, i: int) -> Tile {
        self.spec_palette()[self.spec_slots()[i] as int]
    }

    /// The pixels after the tiles at grid positions below `n` are drawn in
    /// grid order onto `pixels`, a buffer `bw` pixels wide.
    pub open spec fn tiles_drawn(&self, pixels: Seq<Rgba>, bw: int, camera: Camera, n: nat) -> Seq<
        Rgba,
    >
        decreases n,
    {
        if n == 0 {
            pixels
        } else {
            self.tile_at(n - 1).drawn_at(
                self.tiles_drawn(pixels, bw, camera, (n - 1) as nat),
                bw,
                n - 1,
                camera,
            )
        }
    }

    /// The frame of a `bw` × `bh` buffer: the background, then every tile in
    /// grid order shifted by the camera, then the player's sprite at the
    /// player's position.
    pub open spec fn frame(&self, bw: int, bh: int, camera: Camera) -> Seq<Rgba> {
        let tiles = self.tiles_drawn(
            filled((bw * bh) as nat, background()),
            bw,
            camera,
            self.spec_slots().len(),
        );
        match self.spec_player() {
            Some(p) => p.sprite.drawn(tiles, bw, p.body.x as int, p.body.y as int),
            None => tiles,
        }
    }

    /// A world with the given palette, no tiles and no player.
    pub fn new(palette: Vec<Tile>) -> (w: World)
        requires
            palette@.len() >= 1,
            forall|t: int| 0 <= t < palette@.len() ==> #[trigger] palette@[t].wf(),
        ensures
            w.wf(),
            w.spec_palette() == palette@,
            w.spec_slots().len() == 0,
            w.spec_player() is None,
    {
        World { palette, slots: Vec::new(), player: None }
    }

    /// Replaces the grid with the one a textual map describes (see
    /// `parse_level`).
    pub fn load_level(&mut self, map: &[char])
        requires
            old(self).wf(),
        ensures
            final(self).wf(),
            final(self).spec_palette() == old(self).spec_palette(),
            final(self).spec_slots() == level_slots(map@, old(self).spec_palette().len()),
            final(self).spec_player() == old(self).spec_player(),
    {
        self.slots = parse_level(map, self.palette.len());
    }

    /// Puts `player` into the world, in place of any earlier one.
    pub fn set_player(&mut self, player: Player)
        requires
            old(self).wf(),
            player.wf(),
        ensures
            final(self).wf(),
            final(self).spec_palette() == old(self).spec_palette(),
            final(self).spec_slots() == old(self).spec_slots(),
            final(self).spec_player() == Some(player),
    {
        self.player = Some(player);
        proof {
            Self::lemma_same_grid(*old(self), *self);
        }
    }

    /// The palette slot of each grid position, in grid order.
    pub fn slots(&self) -> (s: &[usize])
        ensures
            s@ == self.spec_slots(),
    {
        self.slots.as_slice()
    }

    /// The player, if there is one.
    pub fn player(&self) -> (p: &Option<Player>)
        ensures
            *p == self.spec_player(),
    {
        &self.player
    }

    /// The palette.
    pub fn palette(&self) -> (p: &[Tile])
        ensures
            p@ == self.spec_palette(),
    {
        self.palette.as_slice()
    }

    /// Whether `new_world` is `old_world` with `f` applied to the player's
    /// body (when there is a player), palette and grid unchanged.
    pub open spec fn body_changed(old_world: World, new_world: World, f: spec_fn(Body) -> Body) -> bool {
        &&& new_world.spec_palette() == old_world.spec_palette()
        &&& new_world.spec_slots() == old_world.spec_slots()
        &&& new_world.spec_player() == match old_world.spec_player() {
            Some(p) => Some(with_body(p, f(p.body))),
            None => None,
        }
    }

    /// Moves the player right by one step (two while sprinting).
    pub fn move_character_right(&mut self)
        requires
            old(self).wf(),
        ensures
            final(self).wf(),
            Self::body_changed(*old(self), *final(self), |b: Body| b.moved_right()),
    {
        match &mut self.player {
            Some(p) => p.body.move_right(),
            None => {},
        }
        proof {
            Self::lemma_same_grid(*old(self), *self);
        }
    }

    /// Moves the player left by one step (two while sprinting), stopping at
    /// the left limit.
    pub fn move_character_left(&mut self)
        requires
            old(self).wf(),
        ensures
            final(self).wf(),
            Self::body_changed(*old(self), *final(self), |b: Body| b.moved_left()),
    {
        match &mut self.player {
            Some(p) => p.body.move_left(),
            None => {},
        }
        proof {
            Self::lemma_same_grid(*old(self), *self);
        }
    }

    /// Starts a jump if the player stands on the ground.
    pub fn character_jump(&mut self)
        requires
            old(self).wf(),
        ensures
            final(self).wf(),
            Self::body_changed(*old(self), *final(self), |b: Body| b.jumped()),
    {
        match &mut self.player {
            Some(p) => p.body.jump(),
            None => {},
        }
        proof {
            Self::lemma_same_grid(*old(self), *self);
        }
    }

    /// Advances the player's vertical motion by one tick.
    pub fn update(&mut self)
        requires
            old(self).wf(),
        ensures
            final(self).wf(),
            Self::body_changed(*old(self), *final(self), |b: Body| b.ticked()),
    {
        match &mut self.player {
            Some(p) => p.body.tick(),
            None => {},
        }
        proof {
            Self::lemma_same_grid(*old(self), *self);
        }
    }

    /// Applies one tick of held keys to the player: moves, jump, sprint, then
    /// the physics tick.
    pub fn step(&mut self, input: &InputState)
        requires
            old(self).wf(),
        ensures
            final(self).wf(),
            Self::body_changed(*old(self), *final(self), |b: Body| stepped(b, *input)),
    {
        match &mut self.player {
            Some(p) => p.body.step(input),
            None => {},
        }
        proof {
            Self::lemma_same_grid(*old(self), *self);
        }
    }

    /// Draws the frame: clears `buf` to the background, draws every tile in
    /// grid order shifted by the camera, then the player. Nothing but `buf`
    /// changes, and the result does not depend on what `buf` held before.
    pub fn draw(&self, buf: &mut PixelBuffer, camera: Camera)
        requires
            self.wf(),
            old(buf).wf(),
        ensures
            final(buf).wf(),
            final(buf).spec_width() == old(buf).spec_width(),
            final(buf).spec_height() == old(buf).spec_height(),
            final(buf)@ == self.frame(old(buf).spec_width(), old(buf).spec_height(), camera),
    {
        let ghost bw = buf.spec_width();
        let ghost bh = buf.spec_height();
        buf.clear(background_color());
        let ghost cleared = buf@;
        assert(cleared =~= filled((bw * bh) as nat, background()));
        let mut i: usize = 0;
        while i < self.slots.len()
            invariant
                self.wf(),
                i <= self.spec_slots().len(),
                buf.wf(),
                buf.spec_width() == bw,
                buf.spec_height() == bh,
                cleared == filled((bw * bh) as nat, background()),
                buf@ == self.tiles_drawn(cleared, bw, camera, i as nat),
            decreases self.spec_slots().len() - i,
        {
            let slot = self.slots[i];
            assert(slot < self.spec_palette().len());
            self.palette[slot].draw(buf, i, camera);
            i = i + 1;
        }
        match &self.player {
            Some(p) => p.draw(buf),
            None => {},
        }
    }
}

/// Drawing twice with an unchanged world and camera gives byte-identical
/// buffers: a drawn frame depends on the world, the camera and the buffer's
/// size alone.
pub proof fn lemma_draw_repeatable(
    world: World,
    camera: Camera,
    first: PixelBuffer,
    second: PixelBuffer,
)
    requires
        first.wf(),
        second.wf(),
        first.spec_width() == second.spec_width(),
        first.spec_height() == second.spec_height(),
        first@ == world.frame(first.spec_width(), first.spec_height(), camera),
        second@ == world.frame(second.spec_width(), second.spec_height(), camera),
    ensures
        first.bytes() == second.bytes(),
{
}

/// The three tiles of the built-in palette, 16 × 16 pixels each: slot 0 is
/// transparent, slot 1 dirt (dark red), slot 2 grass (green). Each tile's
/// identifier is its slot.
pub fn default_palette() -> (p: Vec<Tile>)
    ensures
        p@.len() == 3,
        forall|t: int| 0 <= t < 3 ==> #[trigger] p@[t].wf() && p@[t].id == t,
        forall|t: int|
            0 <= t < 3 ==> #[trigger] p@[t].sprite.spec_width() == 16
                && p@[t].sprite.spec_height() == 16,
        p@[0].sprite@ == Seq::new(256, |_i: int| Rgba { r: 0, g: 0, b: 0, a: 0 }),
        p@[1].sprite@ == Seq::new(256, |_i: int| Rgba { r: 128, g: 0, b: 0, a: 255 }),
        p@[2].sprite@ == Seq::new(256, |_i: int| Rgba { r: 0, g: 255, b: 0, a: 255 }),
{
    let mut p: Vec<Tile> = Vec::new();
    p.push(Tile { sprite: Sprite::filled(16, 16, Rgba { r: 0, g: 0, b: 0, a: 0 }), id: 0 });
    p.push(Tile { sprite: Sprite::filled(16, 16, Rgba { r: 128, g: 0, b: 0, a: 255 }), id: 1 });
    p.push(Tile { sprite: Sprite::filled(16, 16, Rgba { r: 0, g: 255, b: 0, a: 255 }), id: 2 });
    p
}

} // verus!
