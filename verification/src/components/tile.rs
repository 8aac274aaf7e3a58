//! Tiles: the cells of the dungeon grid and the entities made from them.

use crate::components::{SpriteRender, SpriteSheetId, Transform};
use crate::random::roll_range;
use crate::units::{clamp_i32, saturate};
use crate::world::{Components, Entity, World};
use rand::rngs::StdRng;
use vstd::prelude::*;

verus! {

/// Raw value of half a tile's side: a tile's hit box reaches this far from its centre.
pub const HALF_TILE: i32 = 8000;

/// Number of outcomes of the roll that picks the sprite of a plain floor tile.
pub const PLAIN_FLOOR_ROLLS: usize = 4;

/// Number of outcomes of the roll that picks the sprite of a wall tile.
pub const WALL_ROLLS: usize = 15;

/// An ornament hung on a wall.
#[derive(PartialEq, Eq, Debug, Clone, Copy)]
pub enum WallDecoration {
    RedFlag1,
    BlackFlag1,
}

impl WallDecoration {
    /// Frame of the ornament on the wall sheet.
    pub open spec fn id(self) -> usize {
        match self {
            WallDecoration::RedFlag1 => 9,
            WallDecoration::BlackFlag1 => 13,
        }
    }

    /// Frame of the ornament on the wall sheet.
    pub fn to_id(&self) -> (id: usize)
        ensures
            id == self.id(),
    {
        match self {
            WallDecoration::RedFlag1 => 9,
            WallDecoration::BlackFlag1 => 13,
        }
    }
}

/// How a floor tile meets the walls around it.
///
/// `TL`, `TR`, `BL`, `BR` name the top-left, top-right, bottom-left and
/// bottom-right; an `O` marks an outer corner, where only the diagonal
/// neighbour is solid. `Empty` is plain floor.
#[derive(PartialEq, Eq, Debug, Clone, Copy)]
pub enum FloorVariant {
    TLCorner,
    TRCorner,
    BLCorner,
    BRCorner,
    TLOCorner,
    TROCorner,
    BLOCorner,
    BROCorner,
    LEdge,
    REdge,
    TEdge,
    BEdge,
    Empty,
}

impl FloorVariant {
    /// Frame on the floor sheet, where `roll` picks among the plain frames.
    pub open spec fn id_for_roll(self, roll: int) -> usize {
        match self {
            FloorVariant::TLCorner => 1,
            FloorVariant::TRCorner => 2,
            FloorVariant::BLCorner => 3,
            FloorVariant::BRCorner => 4,
            FloorVariant::LEdge => 6,
            FloorVariant::TEdge => 8,
            FloorVariant::REdge => 15,
            FloorVariant::BEdge => 13,
            FloorVariant::TLOCorner => 49,
            FloorVariant::TROCorner => 50,
            FloorVariant::BLOCorner => 51,
            FloorVariant::BROCorner => 52,
            FloorVariant::Empty => if roll == 2 {
                61
            } else if roll == 3 {
                62
            } else {
                0
            },
        }
    }

    /// Frame on the floor sheet for a given outcome of the roll.
    ///
    /// Only plain floor looks at the roll: two outcomes in four give the
    /// bare frame, the other two one cracked frame each.
    pub fn sprite_for_roll(&self, roll: usize) -> (id: usize)
        ensures
            id == self.id_for_roll(roll as int),
    {
        match self {
            FloorVariant::TLCorner => 1,
            FloorVariant::TRCorner => 2,
            FloorVariant::BLCorner => 3,
            FloorVariant::BRCorner => 4,
            FloorVariant::LEdge => 6,
            FloorVariant::TEdge => 8,
            FloorVariant::REdge => 15,
            FloorVariant::BEdge => 13,
            FloorVariant::TLOCorner => 49,
            FloorVariant::TROCorner => 50,
            FloorVariant::BLOCorner => 51,
            FloorVariant::BROCorner => 52,
            FloorVariant::Empty => {
                if roll == 2 {
                    61
                } else if roll == 3 {
                    62
                } else {
                    0
                }
            },
        }
    }

    /// Frame on the floor sheet; plain floor draws one of its frames at random.
    pub fn to_id(&self, rng: &mut StdRng) -> (id: usize)
        ensures
            exists|roll: int| 0 <= roll < PLAIN_FLOOR_ROLLS && id == self.id_for_roll(roll),
            !(self is Empty) ==> id == self.id_for_roll(0),
    {
        match self {
            FloorVariant::Empty => {
                let roll = roll_range(rng, 0, PLAIN_FLOOR_ROLLS);
                let id = self.sprite_for_roll(roll);
                id
            },
            _ => {
                let id = self.sprite_for_roll(0);
                id
            },
        }
    }
}

impl Default for FloorVariant {
    fn default() -> (v: FloorVariant)
        ensures
            v == FloorVariant::Empty,
    {
        FloorVariant::Empty
    }
}

/// What a cell of the grid holds.
#[derive(PartialEq, Eq, Debug, Clone, Copy)]
pub enum TileVariant {
    Ceiling,
    Floor(FloorVariant),
    Wall(Option<WallDecoration>),
    Empty,
}

/// Frame on the wall sheet for a given outcome of the wall roll.
pub open spec fn wall_id_for_roll(roll: int) -> usize {
    if roll == 6 || roll == 7 {
        6
    } else if roll == 4 || roll == 5 {
        2
    } else if roll == 3 {
        3
    } else {
        0
    }
}

impl TileVariant {
    /// Width and height of the tile's sprite, in whole units.
    pub open spec fn dimensions(self) -> (int, int) {
        match self {
            TileVariant::Wall(_) => (16, 32),
            _ => (16, 16),
        }
    }

    /// Whether the cell is floor, of any shape.
    pub open spec fn floor(self) -> bool {
        self is Floor
    }

    /// Whether the cell is solid rock seen from above or a wall face.
    pub open spec fn boundary(self) -> bool {
        self is Ceiling || self is Wall
    }

    /// Whether an entity may not enter the cell: everything but floor blocks.
    pub open spec fn blocks(self) -> bool {
        !(self is Floor)
    }

    /// Depth at which the tile is drawn, in thousandths.
    pub open spec fn depth(self) -> int {
        match self {
            TileVariant::Ceiling => 0,
            TileVariant::Wall(_) => 500,
            _ => 250,
        }
    }

    /// Frame of the tile on its sheet, where `roll` picks among frames of equal standing.
    pub open spec fn id_for_roll(self, roll: int) -> usize {
        match self {
            TileVariant::Ceiling => 0,
            TileVariant::Floor(var) => var.id_for_roll(roll),
            TileVariant::Wall(_) => wall_id_for_roll(roll),
            TileVariant::Empty => 0,
        }
    }

    /// Number of outcomes of the roll that `to_id` makes for this tile.
    pub open spec fn rolls(self) -> int {
        match self {
            TileVariant::Floor(FloorVariant::Empty) => PLAIN_FLOOR_ROLLS as int,
            TileVariant::Wall(_) => WALL_ROLLS as int,
            _ => 1,
        }
    }

    /// The sheet that holds the tile's frames.
    pub open spec fn sheet(self) -> SpriteSheetId {
        match self {
            TileVariant::Floor(_) => SpriteSheetId::Floor,
            TileVariant::Wall(_) => SpriteSheetId::Walls,
            _ => SpriteSheetId::Ceiling,
        }
    }

    /// Width and height of the tile's sprite, in whole units: walls are two tiles tall.
    pub fn tile_dimensions(&self) -> (dims: [i32; 2])
        ensures
            dims[0] == self.dimensions().0,
            dims[1] == self.dimensions().1,
    {
        match self {
            TileVariant::Wall(_) => [16, 32],
            _ => [16, 16],
        }
    }

    /// Whether the cell bounds the floor: ceiling and walls do.
    pub fn is_boundary(&self) -> (b: bool)
        ensures
            b == self.boundary(),
    {
        match self {
            TileVariant::Ceiling | TileVariant::Wall(_) => true,
            _ => false,
        }
    }

    /// Whether the cell is floor.
    pub fn is_floor(&self) -> (b: bool)
        ensures
            b == self.floor(),
    {
        match self {
            TileVariant::Floor(_) => true,
            _ => false,
        }
    }

    /// The sheet that holds the tile's frames.
    pub fn sprite_sheet(&self) -> (sheet: SpriteSheetId)
        ensures
            sheet == self.sheet(),
    {
        match self {
            TileVariant::Floor(_) => SpriteSheetId::Floor,
            TileVariant::Wall(_) => SpriteSheetId::Walls,
            _ => SpriteSheetId::Ceiling,
        }
    }

    /// Frame of the tile for a given outcome of its roll.
    pub fn sprite_for_roll(&self, roll: usize) -> (id: usize)
        ensures
            id == self.id_for_roll(roll as int),
    {
        match self {
            TileVariant::Ceiling => 0,
            TileVariant::Floor(var) => var.sprite_for_roll(roll),
            TileVariant::Wall(_) => {
                if roll == 6 || roll == 7 {
                    6
                } else if roll == 4 || roll == 5 {
                    2
                } else if roll == 3 {
                    3
                } else {
                    0
                }
            },
            TileVariant::Empty => 0,
        }
    }

    /// Frame of the tile on its sheet.
    ///
    /// Ceiling and shaped floor have one frame. Plain floor and walls draw
    /// among several, so that large surfaces do not repeat.
    pub fn to_id(&self, rng: &mut StdRng) -> (id: usize)
        ensures
            exists|roll: int| 0 <= roll < self.rolls() && id == self.id_for_roll(roll),
    {
        match self {
            TileVariant::Floor(FloorVariant::Empty) => {
                let roll = roll_range(rng, 0, PLAIN_FLOOR_ROLLS);
                let id = self.sprite_for_roll(roll);
                id
            },
            TileVariant::Wall(_) => {
                let roll = roll_range(rng, 0, WALL_ROLLS);
                let id = self.sprite_for_roll(roll);
                id
            },
            _ => {
                let id = self.sprite_for_roll(0);
                id
            },
        }
    }

    /// The variant's name in lower case.
    pub fn name(&self) -> (s: &'static str)
        ensures
            s@ == self.name_spec(),
    {
        match self {
            TileVariant::Ceiling => "ceiling",
            TileVariant::Floor(_) => "floor",
            TileVariant::Wall(_) => "wall",
            TileVariant::Empty => "empty",
        }
    }

    /// The variant's name in lower case.
    pub open spec fn name_spec(self) -> Seq<char> {
        match self {
            TileVariant::Ceiling => "ceiling"@,
            TileVariant::Floor(_) => "floor"@,
            TileVariant::Wall(_) => "wall"@,
            TileVariant::Empty => "empty"@,
        }
    }
}

impl Default for TileVariant {
    fn default() -> (v: TileVariant)
        ensures
            v == TileVariant::Empty,
    {
        TileVariant::Empty
    }
}

/// A cell of the grid as an entity carries it. `hit_box` holds the lower left
/// and the upper right corner; all coordinates are in thousandths of a unit.
#[derive(Clone, Copy, Debug)]
pub struct Tile {
    pub variant: TileVariant,
    pub blocking: bool,
    pub hit_box: [[i32; 2]; 2],
    pub center: [i32; 2],
}

impl Tile {
    /// An empty tile at the origin that blocks nothing.
    pub open spec fn blank() -> Tile {
        Tile {
            variant: TileVariant::Empty,
            blocking: false,
            hit_box: [[0i32, 0i32], [0i32, 0i32]],
            center: [0i32, 0i32],
        }
    }
}

impl Default for Tile {
    fn default() -> (t: Tile)
        ensures
            t == Tile::blank(),
    {
        Tile {
            variant: TileVariant::Empty,
            blocking: false,
            hit_box: [[0, 0], [0, 0]],
            center: [0, 0],
        }
    }
}

/// How far in front of its wall an ornament is drawn, in thousandths.
pub const DECORATION_LIFT: i32 = 100;

impl Tile {
    /// The tile of the given kind around `center`: it blocks unless it is
    /// floor, and its hit box is the square of one tile's side around the centre.
    pub open spec fn around(variant: TileVariant, center: [i32; 2]) -> Tile {
        Tile {
            variant,
            blocking: variant.blocks(),
            hit_box: [
                [
                    clamp_i32(center[0] - HALF_TILE) as i32,
                    clamp_i32(center[1] - HALF_TILE) as i32,
                ],
                [
                    clamp_i32(center[0] + HALF_TILE) as i32,
                    clamp_i32(center[1] + HALF_TILE) as i32,
                ],
            ],
            center,
        }
    }

    /// Builds the tile of the given kind around `center`.
    pub fn new(variant: TileVariant, center: [i32; 2]) -> (t: Tile)
        ensures
            t == Tile::around(variant, center),
    {
        let blocking = match variant {
            TileVariant::Floor(_) => false,
            _ => true,
        };
        let lower_x = saturate(center[0] as i64 - HALF_TILE as i64);
        let lower_y = saturate(center[1] as i64 - HALF_TILE as i64);
        let upper_x = saturate(center[0] as i64 + HALF_TILE as i64);
        let upper_y = saturate(center[1] as i64 + HALF_TILE as i64);
        let hit_box = [[lower_x, lower_y], [upper_x, upper_y]];
        Tile { variant, blocking, hit_box, center }
    }
}

/// Everything a tile entity carries, for the sprite frame `id`.
pub open spec fn tile_components(
    variant: TileVariant,
    sheet: SpriteSheetId,
    center: [i32; 2],
    id: usize,
) -> Components {
    Components {
        sprite: Some(SpriteRender { sprite_sheet: sheet, sprite_number: id }),
        tile: Some(Tile::around(variant, center)),
        transform: Some(Transform::placed(center[0], center[1], variant.depth() as i32)),
        ..Components::nothing()
    }
}

/// The ornament of a wall: a sprite of its own, just in front of the wall.
pub open spec fn decoration_components(
    decoration: WallDecoration,
    sheet: SpriteSheetId,
    center: [i32; 2],
) -> Components {
    Components {
        sprite: Some(SpriteRender { sprite_sheet: sheet, sprite_number: decoration.id() }),
        transform: Some(Transform::placed(center[0], center[1], 600)),
        ..Components::nothing()
    }
}

/// The store after a tile entered it: the tile comes last, followed by its
/// ornament where it is a wall that has one.
pub open spec fn with_tile(
    store: Seq<Option<Components>>,
    variant: TileVariant,
    sheet: SpriteSheetId,
    center: [i32; 2],
    id: usize,
) -> Seq<Option<Components>> {
    let tiled = store.push(Some(tile_components(variant, sheet, center, id)));
    match variant {
        TileVariant::Wall(Some(decoration)) => tiled.push(
            Some(decoration_components(decoration, sheet, center)),
        ),
        _ => tiled,
    }
}

/// Number of entities that a tile of the given kind takes: one, or two with an ornament.
pub open spec fn tile_entities(variant: TileVariant) -> int {
    match variant {
        TileVariant::Wall(Some(_)) => 2,
        _ => 1,
    }
}

/// Puts a tile with the sprite frame `id` into the world, and its ornament
/// after it where it is a wall that has one. Returns the tile's handle.
pub fn place_tile(
    world: &mut World,
    variant: TileVariant,
    sprite_sheet_handle: SpriteSheetId,
    center: [i32; 2],
    id: usize,
) -> (entity: Entity)
    ensures
        entity.id == old(world)@.len(),
        final(world)@ == with_tile(old(world)@, variant, sprite_sheet_handle, center, id),
        final(world)@.len() == old(world)@.len() + tile_entities(variant),
        old(world).wf() ==> final(world).wf(),
{
    let z: i32 = match variant {
        TileVariant::Ceiling => 0,
        TileVariant::Wall(_) => 500,
        _ => 250,
    };
    let transform = Transform::at(center[0], center[1], z);
    let sprite_render = SpriteRender { sprite_sheet: sprite_sheet_handle, sprite_number: id };
    let entity = world.create_entity(
        Components {
            sprite: Some(sprite_render),
            tile: Some(Tile::new(variant, center)),
            transform: Some(transform),
            ..Components::empty()
        },
    );
    match variant {
        TileVariant::Wall(Some(dec)) => {
            let dec_sprite_render = SpriteRender {
                sprite_sheet: sprite_sheet_handle,
                sprite_number: dec.to_id(),
            };
            world.create_entity(
                Components {
                    sprite: Some(dec_sprite_render),
                    transform: Some(Transform::at(center[0], center[1], z + DECORATION_LIFT)),
                    ..Components::empty()
                },
            );
        },
        _ => {},
    }
    entity
}

/// Puts a tile of the given kind into the world around `center` and returns
/// its handle.
///
/// The tile entity carries the tile record, a sprite whose frame the variant
/// picks (at random where it has several), and a transform at the centre, at
/// the depth of its kind. A wall with an ornament gets a second entity for it.
pub fn initialize_tile(
    world: &mut World,
    variant: TileVariant,
    sprite_sheet_handle: SpriteSheetId,
    center: [i32; 2],
    rng: &mut StdRng,
) -> (entity: Entity)
    ensures
        entity.id == old(world)@.len(),
        exists|roll: int|
            0 <= roll < variant.rolls() && final(world)@ == with_tile(
                old(world)@,
                variant,
                sprite_sheet_handle,
                center,
                variant.id_for_roll(roll),
            ),
        final(world)@.len() == old(world)@.len() + tile_entities(variant),
        old(world).wf() ==> final(world).wf(),
{
    let id = variant.to_id(rng);
    place_tile(world, variant, sprite_sheet_handle, center, id)
}

} // verus!
