//! The dungeon builder: lays out rooms, joins them with tunnels, raises the
//! walls, shapes the floor, and fills the world with tiles and units.

use crate::{calc_tile_center, tile_center, TILE_WIDTH};
use crate::components::SpriteSheetId;
use crate::components::npc::{place_npc, with_unit, NpcVariant};
use crate::components::scenary::{campfire_components, initialize_campfire};
use crate::components::tile::{initialize_tile, with_tile, FloorVariant, TileVariant};
use crate::random::{flip_coin, roll_range};
use crate::resources::carving::{
    carved, carved_upto, create_h_tunnel, create_v_tunnel, floor_in_margins, initialize_room,
    lemma_carve_room, lemma_carved_all, room_area, with_room,
};
use crate::resources::grid::{
    all_floor, cell, column_of, floor_at, floor_kept, in_grid, is_ceiling, lemma_cell_index,
    lemma_same_cells, no_floor, row_of, Grid, CELLS, UNIT_HEIGHT, UNIT_WIDTH,
};
use crate::resources::layout::{
    boss_room, is_layout, lemma_layout_rooms, potential_spawn_rooms, spawn_candidate,
};
use crate::resources::paths::{connected_from, joined};
use crate::resources::shaping::{
    detailed, detailed_cell, finished, lemma_detailed_cells, lemma_room_center_stays,
    lemma_walled_cells, walled, walled_cell, walled_cell_upto,
};
use crate::units::{clamp_i32, saturate};
use crate::world::{Components, World};
use rand::rngs::StdRng;
use vstd::prelude::*;

verus! {

/// Number of rooms but for the boss room: the player's room, and the rooms of random size and place.
pub const MAX_ROOMS: usize = 10;

/// The bounds on the size of a room, in tiles: three tenths of the grid at most,
pub const MAX_ROOM_WIDTH: usize = 24;

pub const MAX_ROOM_HEIGHT: usize = 12;

/// and five tiles at least.
pub const MIN_ROOM_WIDTH: usize = 5;

pub const MIN_ROOM_HEIGHT: usize = 5;

/// The margin: no room reaches left of this column,
pub const MIN_ROOM_X: usize = 2;

/// below this row,
pub const MIN_ROOM_Y: usize = 2;

/// right of this column,
pub const MAX_ROOM_X: usize = 78;

/// or above this row, which leaves space for the walls that rise behind a room.
pub const MAX_ROOM_Y: usize = 34;

/// Width and height of the room in which the player's unit starts.
pub const SPAWN_ROOM_WIDTH: usize = 15;

pub const SPAWN_ROOM_HEIGHT: usize = 10;

/// The spawn chance of an ordinary room, in tenths.
pub const ROOM_SPAWN_CHANCE: usize = 3;

/// The largest spawn chance, that of the boss room.
pub const BOSS_SPAWN_CHANCE: usize = 9;

/// Number of outcomes of the roll that decides whether enemies are placed in a room.
pub const SPAWN_ROLLS: usize = 10;

/// How far from the camp fire the units of an enemy group stand.
pub const GROUP_RADIUS: i32 = 25_000;

/// A rectangle of cells: from column `x` to column `x + width` and from row
/// `y` to row `y + height`, both ends included.
#[derive(Default, Clone, Copy, Debug)]
pub struct Rect {
    pub x: usize,
    pub y: usize,
    pub width: usize,
    pub height: usize,
}

impl Rect {
    /// The rectangle with the given first column and row, width and height.
    pub fn new(x: usize, y: usize, w: usize, h: usize) -> (r: Rect)
        ensures
            r == (Rect { x: x, y: y, width: w, height: h }),
    {
        Rect { x: x, y: y, width: w, height: h }
    }
}

/// A room of the dungeon while it is being built.
#[derive(Default, Clone, Copy, Debug)]
pub struct Room {
    pub dimensions: Rect,
    /// The room in which the player's unit starts; no enemy is placed in it.
    pub safe: bool,
    /// Chance in tenths that an enemy group is placed in the room.
    pub enemy_spawn_chance: usize,
}

impl Room {
    /// The room's size is within the configured bounds, it lies within the
    /// margins of the grid, and its spawn chance is at most nine tenths.
    pub open spec fn wf(self) -> bool {
        &&& MIN_ROOM_WIDTH <= self.dimensions.width <= MAX_ROOM_WIDTH
        &&& MIN_ROOM_HEIGHT <= self.dimensions.height <= MAX_ROOM_HEIGHT
        &&& MIN_ROOM_X <= self.dimensions.x
        &&& self.dimensions.x + self.dimensions.width <= MAX_ROOM_X
        &&& MIN_ROOM_Y <= self.dimensions.y
        &&& self.dimensions.y + self.dimensions.height <= MAX_ROOM_Y
        &&& self.enemy_spawn_chance <= BOSS_SPAWN_CHANCE
    }

    /// Column and row of the room's central cell.
    pub open spec fn center_spec(self) -> (int, int) {
        (
            self.dimensions.x + self.dimensions.width / 2,
            self.dimensions.y + self.dimensions.height / 2,
        )
    }

    /// Whether enemies are placed in the room for the given roll: never in a
    /// safe room, else where the roll is lower than the room's chance.
    pub open spec fn spawns(self, roll: usize) -> bool {
        !self.safe && roll < self.enemy_spawn_chance
    }

    /// Where the units of the room are placed: the centre of its central tile.
    pub open spec fn spawn_point(self) -> [i32; 2] {
        [tile_center(self.center_spec().0), tile_center(self.center_spec().1)]
    }

    /// A room of random size at a random place within the margins. Enemies
    /// may be placed in it, with the chance of an ordinary room.
    pub fn random(rng: &mut StdRng) -> (room: Room)
        ensures
            MIN_ROOM_WIDTH <= room.dimensions.width <= MAX_ROOM_WIDTH,
            MIN_ROOM_HEIGHT <= room.dimensions.height <= MAX_ROOM_HEIGHT,
            MIN_ROOM_X <= room.dimensions.x < MAX_ROOM_X - room.dimensions.width,
            MIN_ROOM_Y <= room.dimensions.y < MAX_ROOM_Y - room.dimensions.height,
            !room.safe,
            room.enemy_spawn_chance == ROOM_SPAWN_CHANCE,
            room.wf(),
    {
        let width = roll_range(rng, MIN_ROOM_WIDTH, MAX_ROOM_WIDTH + 1);
        let height = roll_range(rng, MIN_ROOM_HEIGHT, MAX_ROOM_HEIGHT + 1);
        let x = roll_range(rng, MIN_ROOM_X, MAX_ROOM_X - width);
        let y = roll_range(rng, MIN_ROOM_Y, MAX_ROOM_Y - height);
        Room {
            dimensions: Rect::new(x, y, width, height),
            safe: false,
            enemy_spawn_chance: ROOM_SPAWN_CHANCE,
        }
    }

    /// Column and row of the room's central cell.
    pub fn center(&self) -> (c: [usize; 2])
        requires
            self.dimensions.x + self.dimensions.width <= usize::MAX,
            self.dimensions.y + self.dimensions.height <= usize::MAX,
        ensures
            c[0] == self.center_spec().0,
            c[1] == self.center_spec().1,
    {
        let x = self.dimensions.x + (self.dimensions.width / 2);
        let y = self.dimensions.y + (self.dimensions.height / 2);
        [x, y]
    }
}

/// What chance decides when enemies are placed in a room.
#[derive(Clone, Copy, Debug)]
pub struct SpawnDraw {
    /// The roll against the room's spawn chance: enemies are placed where it is lower.
    pub roll: usize,
    /// Whether the group has a unit to the right of the fire,
    pub right: bool,
    /// and one to the left of it.
    pub left: bool,
    /// Which of the two orcs the unit above the fire is,
    pub alternate: bool,
    /// the one to the right,
    pub alternate_right: bool,
    /// and the one to the left.
    pub alternate_left: bool,
}

impl SpawnDraw {
    /// Draws the roll and the coins for one room.
    pub fn draw(rng: &mut StdRng) -> (d: SpawnDraw)
        ensures
            d.roll < SPAWN_ROLLS,
    {
        let roll = roll_range(rng, 0, SPAWN_ROLLS);
        let alternate = flip_coin(rng);
        let right = flip_coin(rng);
        let alternate_right = flip_coin(rng);
        let left = flip_coin(rng);
        let alternate_left = flip_coin(rng);
        SpawnDraw { roll, right, left, alternate, alternate_right, alternate_left }
    }
}

/// How far above its cell's centre a tile is placed: a tile taller than its
/// cell is raised so that its foot stands on the cell.
pub open spec fn tile_lift(variant: TileVariant) -> int {
    let height = variant.dimensions().1;
    if height != TILE_WIDTH {
        (TILE_WIDTH as int / (height / (TILE_WIDTH as int))) * 1000
    } else {
        0
    }
}

/// Where the tile of the cell `(x, y)` is placed in the world.
pub open spec fn tile_place(variant: TileVariant, x: int, y: int) -> [i32; 2] {
    [tile_center(x), (tile_center(y) + tile_lift(variant)) as i32]
}

/// The dungeon under construction.
pub struct MapBuilder {
    pub auras_sheet_handle: SpriteSheetId,
    pub floor_sheet_handle: SpriteSheetId,
    pub ceiling_sheet_handle: SpriteSheetId,
    pub wall_sheet_handle: SpriteSheetId,
    pub npc_sheet_handle: SpriteSheetId,
    pub orc_mage_sheet_handle: SpriteSheetId,
    pub scenary_sheet_handle: SpriteSheetId,
    pub map: Grid,
    pub rooms: Vec<Room>,
}

impl MapBuilder {
    /// The builder's sprite sheets, in the order of its fields.
    pub open spec fn sheets(&self) -> (
        SpriteSheetId,
        SpriteSheetId,
        SpriteSheetId,
        SpriteSheetId,
        SpriteSheetId,
        SpriteSheetId,
        SpriteSheetId,
    ) {
        (
            self.auras_sheet_handle,
            self.floor_sheet_handle,
            self.ceiling_sheet_handle,
            self.wall_sheet_handle,
            self.npc_sheet_handle,
            self.orc_mage_sheet_handle,
            self.scenary_sheet_handle,
        )
    }

    /// The sheet from which the tile of a cell is drawn.
    pub open spec fn sheet_for(&self, variant: TileVariant) -> SpriteSheetId {
        match variant {
            TileVariant::Ceiling => self.ceiling_sheet_handle,
            TileVariant::Floor(_) => self.floor_sheet_handle,
            TileVariant::Wall(_) => self.wall_sheet_handle,
            _ => self.ceiling_sheet_handle,
        }
    }

    /// The store after the first `n` cells of the grid, column after column,
    /// got their tiles, where `rolls[i]` picks the sprite of cell `i`.
    pub open spec fn tiled(&self, store: Seq<Option<Components>>, rolls: Seq<int>, n: int) -> Seq<
        Option<Components>,
    >
        decreases n,
    {
        if n <= 0 {
            store
        } else {
            let variant = self.map@[n - 1];
            with_tile(
                self.tiled(store, rolls, n - 1),
                variant,
                self.sheet_for(variant),
                tile_place(variant, column_of(n - 1), row_of(n - 1)),
                variant.id_for_roll(rolls[n - 1]),
            )
        }
    }

    /// Whether `rolls` holds one roll for each cell, each among the outcomes that the cell's kind has.
    pub open spec fn rolls_fit(&self, rolls: Seq<int>) -> bool {
        &&& rolls.len() == CELLS
        &&& forall|i: int| 0 <= i < CELLS ==> 0 <= #[trigger] rolls[i] < self.map@[i].rolls()
    }

    /// The store after an enemy group was placed around `center`: a camp
    /// fire, a unit above it, and a unit to each side where the draw says so.
    pub open spec fn with_group(
        &self,
        store: Seq<Option<Components>>,
        center: [i32; 2],
        draw: SpawnDraw,
    ) -> Seq<Option<Components>> {
        let fire = store.push(Some(campfire_components(self.scenary_sheet_handle, center)));
        let first = with_unit(
            fire,
            NpcVariant::Orc,
            self.orc_mage_sheet_handle,
            self.auras_sheet_handle,
            [center[0], clamp_i32(center[1] + GROUP_RADIUS) as i32],
            draw.alternate,
        );
        let second = if draw.right {
            with_unit(
                first,
                NpcVariant::Orc,
                self.orc_mage_sheet_handle,
                self.auras_sheet_handle,
                [clamp_i32(center[0] + GROUP_RADIUS) as i32, center[1]],
                draw.alternate_right,
            )
        } else {
            first
        };
        if draw.left {
            with_unit(
                second,
                NpcVariant::Orc,
                self.orc_mage_sheet_handle,
                self.auras_sheet_handle,
                [clamp_i32(center[0] - GROUP_RADIUS) as i32, center[1]],
                draw.alternate_left,
            )
        } else {
            second
        }
    }

    /// The store after a room got its units: the player's unit in a safe
    /// room, an enemy group in a room for which the draw's roll is lower
    /// than its spawn chance, and nothing in any other room.
    pub open spec fn with_room(&self, store: Seq<Option<Components>>, room: Room, draw: SpawnDraw) -> Seq<
        Option<Components>,
    > {
        if room.safe {
            with_unit(
                store,
                NpcVariant::Normal,
                self.npc_sheet_handle,
                self.auras_sheet_handle,
                room.spawn_point(),
                false,
            )
        } else if room.spawns(draw.roll) {
            self.with_group(store, room.spawn_point(), draw)
        } else {
            store
        }
    }

    /// The store after the first `n` rooms got their units, where `draws[i]` is the draw for room `i`.
    pub open spec fn populated(&self, store: Seq<Option<Components>>, draws: Seq<SpawnDraw>, n: int) -> Seq<
        Option<Components>,
    >
        decreases n,
    {
        if n <= 0 {
            store
        } else {
            self.with_room(self.populated(store, draws, n - 1), self.rooms@[n - 1], draws[n - 1])
        }
    }

    /// Whether `draws` holds one draw for each room, each with a roll among its outcomes.
    pub open spec fn draws_fit(&self, draws: Seq<SpawnDraw>) -> bool {
        &&& draws.len() == self.rooms@.len()
        &&& forall|i: int| 0 <= i < draws.len() ==> (#[trigger] draws[i]).roll < SPAWN_ROLLS
    }

    /// The tiles of the first `n` cells depend on the rolls of those cells only.
    pub proof fn lemma_tiled_rolls(&self, store: Seq<Option<Components>>, a: Seq<int>, b: Seq<int>, n: int)
        requires
            forall|i: int| 0 <= i < n ==> a[i] == b[i],
        ensures
            self.tiled(store, a, n) == self.tiled(store, b, n),
        decreases n,
    {
        if n > 0 {
            self.lemma_tiled_rolls(store, a, b, n - 1);
        }
    }

    /// The units of the first `n` rooms depend on the draws for those rooms only.
    pub proof fn lemma_populated_draws(
        &self,
        store: Seq<Option<Components>>,
        a: Seq<SpawnDraw>,
        b: Seq<SpawnDraw>,
        n: int,
    )
        requires
            forall|i: int| 0 <= i < n ==> a[i] == b[i],
        ensures
            self.populated(store, a, n) == self.populated(store, b, n),
        decreases n,
    {
        if n > 0 {
            self.lemma_populated_draws(store, a, b, n - 1);
        }
    }

    /// A builder with a grid of solid rock and no rooms.
    pub fn initialize() -> (builder: MapBuilder)
        ensures
            builder.map.wf(),
            forall|i: int| 0 <= i < CELLS ==> builder.map@[i] == TileVariant::Ceiling,
            no_floor(builder.map@),
            builder.rooms@.len() == 0,
            builder.sheets() == (
                SpriteSheetId::Auras,
                SpriteSheetId::Floor,
                SpriteSheetId::Ceiling,
                SpriteSheetId::Walls,
                SpriteSheetId::Warrior,
                SpriteSheetId::Orc,
                SpriteSheetId::CampFire,
            ),
    {
        let map = Grid::new();
        assert forall|x: int, y: int| !floor_at(map@, (x, y)) by {
            if in_grid(x, y) {
                lemma_cell_index(x, y);
            }
        }
        MapBuilder {
            auras_sheet_handle: SpriteSheetId::Auras,
            floor_sheet_handle: SpriteSheetId::Floor,
            ceiling_sheet_handle: SpriteSheetId::Ceiling,
            wall_sheet_handle: SpriteSheetId::Walls,
            npc_sheet_handle: SpriteSheetId::Warrior,
            orc_mage_sheet_handle: SpriteSheetId::Orc,
            scenary_sheet_handle: SpriteSheetId::CampFire,
            map: map,
            rooms: Vec::new(),
        }
    }

    /// Whether the builder is as `initialize` leaves it: its grid is whole
    /// and without floor, and it has no rooms.
    pub fn is_fresh(&self) -> (b: bool)
        ensures
            b == (self.map.wf() && no_floor(self.map@) && self.rooms@.len() == 0),
    {
        if !self.map.is_whole() || self.rooms.len() != 0 {
            return false;
        }
        let mut x: usize = 0;
        while x < UNIT_WIDTH
            invariant
                x <= UNIT_WIDTH,
                self.map.wf(),
                forall|cx: int, cy: int| 0 <= cx < x && 0 <= cy < UNIT_HEIGHT ==> !floor_at(self.map@, (cx, cy)),
            decreases UNIT_WIDTH - x,
        {
            let mut y: usize = 0;
            while y < UNIT_HEIGHT
                invariant
                    x < UNIT_WIDTH,
                    y <= UNIT_HEIGHT,
                    self.map.wf(),
                    forall|cx: int, cy: int|
                        0 <= cx < x && 0 <= cy < UNIT_HEIGHT ==> !floor_at(self.map@, (cx, cy)),
                    forall|cy: int| 0 <= cy < y ==> !floor_at(self.map@, (x as int, cy)),
                decreases UNIT_HEIGHT - y,
            {
                if self.map.get(x, y).is_floor() {
                    assert(floor_at(self.map@, (x as int, y as int)));
                    return false;
                }
                y += 1;
            }
            x += 1;
        }
        true
    }

    /// Builds the dungeon and fills the world with it.
    ///
    /// The rooms are defined and carved into the rock with the tunnels that
    /// join them; the walls are raised; the floor is shaped; every cell
    /// becomes a tile in the world; and the units are placed in the rooms.
    ///
    /// Whatever the random source gives: the rooms are a layout, so each
    /// keeps to the bounds and the first alone is safe; when the rooms had
    /// been carved, every floor cell could be reached from the centre of
    /// the first room; the centre of every room is floor; and the world
    /// holds what it held, then the tiles, then the units.
    pub fn build_map(&mut self, world: &mut World, rng: &mut StdRng)
        requires
            old(self).map.wf(),
            no_floor(old(self).map@),
            old(self).rooms@.len() == 0,
        ensures
            is_layout(final(self).rooms@),
            forall|i: int|
                0 <= i < final(self).rooms@.len() ==> (#[trigger] final(self).rooms@[i]).wf(),
            forall|i: int|
                0 <= i < final(self).rooms@.len() ==> ((#[trigger] final(self).rooms@[i]).safe <==> i
                    == 0),
            final(self).sheets() == old(self).sheets(),
            exists|flips: Seq<bool>|
                {
                    &&& flips.len() == final(self).rooms@.len()
                    &&& final(self).map@ == finished(old(self).map@, final(self).rooms@, flips)
                    &&& connected_from(
                        carved(old(self).map@, final(self).rooms@, flips),
                        final(self).rooms@[0].center_spec(),
                    )
                },
            final(self).map.wf(),
            floor_in_margins(final(self).map@),
            forall|i: int|
                0 <= i < final(self).rooms@.len() ==> floor_at(
                    final(self).map@,
                    (#[trigger] final(self).rooms@[i]).center_spec(),
                ),
            exists|rolls: Seq<int>, draws: Seq<SpawnDraw>|
                {
                    &&& final(self).rolls_fit(rolls)
                    &&& final(self).draws_fit(draws)
                    &&& final(world)@ == final(self).populated(
                        final(self).tiled(old(world)@, rolls, CELLS as int),
                        draws,
                        final(self).rooms@.len() as int,
                    )
                },
            old(world).wf() ==> final(world).wf(),
    {
        let ghost start = self.map@;
        self.define_rooms(rng);
        let ghost rooms = self.rooms@;
        proof {
            assert(rooms.subrange(0, rooms.len() as int) =~= rooms);
            lemma_layout_rooms(rooms);
        }
        self.carve_rooms(rng);
        let ghost carved_map = self.map@;
        let ghost flips = choose|flips: Seq<bool>|
            flips.len() == rooms.len() && carved_map == carved(start, rooms, flips);
        self.carve_walls();
        self.detail_map();
        proof {
            assert(self.map@ == finished(start, rooms, flips));
            assert forall|i: int| 0 <= i < rooms.len() implies floor_at(
                self.map@,
                (#[trigger] rooms[i]).center_spec(),
            ) by {
                lemma_room_center_stays(carved_map, rooms[i]);
            }
        }
        self.initialize_map(world, rng);
        let ghost tiles = world@;
        let ghost rolls = choose|rolls: Seq<int>|
            self.rolls_fit(rolls) && tiles == self.tiled(old(world)@, rolls, CELLS as int);
        self.spawn_npcs(world, rng);
        proof {
            let draws = choose|draws: Seq<SpawnDraw>|
                self.draws_fit(draws) && world@ == self.populated(tiles, draws, rooms.len() as int);
            assert(self.rolls_fit(rolls) && self.draws_fit(draws) && world@ == self.populated(
                self.tiled(old(world)@, rolls, CELLS as int),
                draws,
                self.rooms@.len() as int,
            ));
        }
    }

    /// Defines the rooms of the dungeon and appends them to `rooms`.
    ///
    /// First comes the room in which the player's unit starts, in a corner
    /// drawn at random; no enemy is placed in it. Then come the rooms of
    /// random size and place. Last comes the boss room, in the corner
    /// farthest from the player's.
    pub fn define_rooms(&mut self, rng: &mut StdRng)
        ensures
            final(self).rooms@.len() == old(self).rooms@.len() + MAX_ROOMS + 1,
            final(self).rooms@.subrange(0, old(self).rooms@.len() as int) == old(self).rooms@,
            is_layout(
                final(self).rooms@.subrange(
                    old(self).rooms@.len() as int,
                    final(self).rooms@.len() as int,
                ),
            ),
            final(self).map == old(self).map,
            final(self).sheets() == old(self).sheets(),
    {
        // The room in which the player's unit starts: no enemy is placed in it.
        let potential_spawn_rooms = potential_spawn_rooms();
        let index = roll_range(rng, 0, potential_spawn_rooms.len());
        let determined_spawn = potential_spawn_rooms[index];
        let ghost before = self.rooms@;
        self.rooms.push(determined_spawn);
        let mut i: usize = 0;
        while i < MAX_ROOMS - 1
            invariant
                i <= MAX_ROOMS - 1,
                self.map == old(self).map,
                self.sheets() == old(self).sheets(),
                self.rooms@.len() == before.len() + 1 + i,
                self.rooms@.subrange(0, before.len() as int) == before,
                self.rooms@[before.len() as int] == determined_spawn,
                forall|j: int|
                    1 <= j < 1 + i ==> {
                        &&& (#[trigger] self.rooms@[before.len() + j]).wf()
                        &&& !self.rooms@[before.len() + j].safe
                        &&& self.rooms@[before.len() + j].enemy_spawn_chance == ROOM_SPAWN_CHANCE
                    },
            decreases MAX_ROOMS - 1 - i,
        {
            let room = Room::random(rng);
            self.rooms.push(room);
            i += 1;
        }
        // The boss room.
        assert(determined_spawn == spawn_candidate(index as int));
        let boss = boss_room(&determined_spawn);
        self.rooms.push(boss);
        proof {
            let added = self.rooms@.subrange(before.len() as int, self.rooms@.len() as int);
            assert forall|j: int| 1 <= j < MAX_ROOMS implies {
                &&& (#[trigger] added[j]).wf()
                &&& !added[j].safe
                &&& added[j].enemy_spawn_chance == ROOM_SPAWN_CHANCE
            } by {
                assert(added[j] == self.rooms@[before.len() + j]);
            }
        }
    }

    /// Carves the rooms and the tunnels between them into the grid, where
    /// `flips[i]` tells which way the tunnel to room `i` turns.
    ///
    /// Each room becomes plain floor. Each room after the first is joined to
    /// the one before it by a tunnel of two legs, three cells wide, from
    /// centre to centre: first along the row and then along the column if
    /// its flip is set, else the other way round.
    ///
    /// On a grid without floor the result is connected: every floor cell
    /// can be reached from the centre of the first room over floor.
    pub fn carve_rooms_with(&mut self, flips: &Vec<bool>)
        requires
            old(self).map.wf(),
            flips@.len() == old(self).rooms@.len(),
            forall|i: int| 0 <= i < old(self).rooms@.len() ==> (#[trigger] old(self).rooms@[i]).wf(),
        ensures
            final(self).map@ == carved(old(self).map@, old(self).rooms@, flips@),
            final(self).map.wf(),
            final(self).rooms@ == old(self).rooms@,
            final(self).sheets() == old(self).sheets(),
            no_floor(old(self).map@) && old(self).rooms@.len() > 0 ==> connected_from(
                final(self).map@,
                old(self).rooms@[0].center_spec(),
            ),
            floor_in_margins(old(self).map@) ==> floor_in_margins(final(self).map@),
            forall|i: int|
                0 <= i < old(self).rooms@.len() ==> all_floor(
                    final(self).map@,
                    room_area(#[trigger] old(self).rooms@[i]),
                ),
    {
        let n = self.rooms.len();
        let ghost rooms = self.rooms@;
        let ghost start = self.map@;
        let mut i: usize = 0;
        while i < n
            invariant
                i <= n,
                n == rooms.len(),
                flips@.len() == n,
                self.rooms@ == rooms,
                self.sheets() == old(self).sheets(),
                rooms == old(self).rooms@,
                start == old(self).map@,
                self.map.wf(),
                forall|j: int| 0 <= j < n ==> (#[trigger] rooms[j]).wf(),
                carved_upto(start, self.map@, rooms, flips@, i as int),
                no_floor(start) && i > 0 ==> connected_from(self.map@, rooms[0].center_spec()),
                floor_in_margins(start) ==> floor_in_margins(self.map@),
            decreases n - i,
        {
            let ghost before = self.map@;
            let r = self.rooms[i];
            proof {
                lemma_carve_room(start, before, rooms, flips@, i as int);
            }
            initialize_room(&mut self.map, &r);
            let curr_center = r.center();
            // Is there a room before this one? If so, join it to this one.
            if i > 0 {
                let prev_room = self.rooms[i - 1];
                let prev_center = prev_room.center();
                if flips[i] {
                    create_h_tunnel(prev_center[0], curr_center[0], prev_center[1], &mut self.map);
                    create_v_tunnel(prev_center[1], curr_center[1], curr_center[0], &mut self.map);
                } else {
                    create_v_tunnel(prev_center[1], curr_center[1], prev_center[0], &mut self.map);
                    create_h_tunnel(prev_center[0], curr_center[0], curr_center[1], &mut self.map);
                }
            }
            i += 1;
        }
        proof {
            lemma_carved_all(start, self.map@, rooms, flips@);
        }
    }

    /// Carves the rooms and the tunnels between them into the grid; which
    /// way each tunnel turns is decided by the flip of a coin.
    pub fn carve_rooms(&mut self, rng: &mut StdRng)
        requires
            old(self).map.wf(),
            forall|i: int| 0 <= i < old(self).rooms@.len() ==> (#[trigger] old(self).rooms@[i]).wf(),
        ensures
            exists|flips: Seq<bool>|
                flips.len() == old(self).rooms@.len() && final(self).map@ == carved(
                    old(self).map@,
                    old(self).rooms@,
                    flips,
                ),
            final(self).map.wf(),
            final(self).rooms@ == old(self).rooms@,
            final(self).sheets() == old(self).sheets(),
            no_floor(old(self).map@) && old(self).rooms@.len() > 0 ==> connected_from(
                final(self).map@,
                old(self).rooms@[0].center_spec(),
            ),
            floor_in_margins(old(self).map@) ==> floor_in_margins(final(self).map@),
            forall|i: int|
                0 <= i < old(self).rooms@.len() ==> all_floor(
                    final(self).map@,
                    room_area(#[trigger] old(self).rooms@[i]),
                ),
    {
        let n = self.rooms.len();
        let mut flips: Vec<bool> = Vec::new();
        let mut i: usize = 0;
        while i < n
            invariant
                i <= n,
                flips@.len() == i,
            decreases n - i,
        {
            // The first room has no room before it, and no tunnel to turn.
            let flip = if i > 0 {
                flip_coin(rng)
            } else {
                false
            };
            flips.push(flip);
            i += 1;
        }
        self.carve_rooms_with(&flips);
    }

    /// Raises the walls: ceiling right above floor becomes wall, and the
    /// cell two further up becomes ceiling.
    pub fn carve_walls(&mut self)
        requires
            old(self).map.wf(),
            floor_in_margins(old(self).map@),
        ensures
            final(self).map@ == walled(old(self).map@),
            final(self).map.wf(),
            final(self).rooms@ == old(self).rooms@,
            final(self).sheets() == old(self).sheets(),
            floor_kept(final(self).map@, old(self).map@),
            floor_in_margins(final(self).map@),
    {
        let mut walled_map = self.map.duplicate();
        let ghost g = self.map@;
        let mut x: usize = 0;
        while x < UNIT_WIDTH
            invariant
                x <= UNIT_WIDTH,
                g == self.map@,
                self.map.wf(),
                walled_map.wf(),
                floor_in_margins(g),
                self.rooms@ == old(self).rooms@,
                self.map@ == old(self).map@,
                forall|cx: int, cy: int|
                    in_grid(cx, cy) ==> #[trigger] cell(walled_map@, cx, cy) == (if cx < x {
                        walled_cell(g, cx, cy)
                    } else {
                        cell(g, cx, cy)
                    }),
            decreases UNIT_WIDTH - x,
        {
            let mut y: usize = 0;
            while y < UNIT_HEIGHT
                invariant
                    x < UNIT_WIDTH,
                    y <= UNIT_HEIGHT,
                    g == self.map@,
                    self.map.wf(),
                    walled_map.wf(),
                    floor_in_margins(g),
                    self.rooms@ == old(self).rooms@,
                    self.map@ == old(self).map@,
                    forall|cx: int, cy: int|
                        in_grid(cx, cy) ==> #[trigger] cell(walled_map@, cx, cy) == (if cx < x {
                            walled_cell(g, cx, cy)
                        } else if cx == x {
                            walled_cell_upto(g, cx, cy, y as int)
                        } else {
                            cell(g, cx, cy)
                        }),
                decreases UNIT_HEIGHT - y,
            {
                let tile = self.map.get(x, y);
                if tile.is_floor() {
                    assert(floor_at(g, (x as int, y as int)));
                    let above = self.map.get(x, y + 1);
                    let is_ceiling = match above {
                        TileVariant::Ceiling => true,
                        _ => false,
                    };
                    if is_ceiling {
                        walled_map.set(x, y + 1, TileVariant::Wall(None));
                        walled_map.set(x, y + 3, TileVariant::Ceiling);
                    }
                }
                y += 1;
            }
            x += 1;
        }
        proof {
            lemma_walled_cells(g);
            lemma_same_cells(walled_map@, walled(g));
        }
        self.map = walled_map
    }

    /// Shapes the floor: every floor cell takes the shape that its solid
    /// neighbours call for — a corner, an edge, an outer corner — or keeps
    /// the shape it had where no neighbour is solid.
    pub fn detail_map(&mut self)
        requires
            old(self).map.wf(),
            floor_in_margins(old(self).map@),
        ensures
            final(self).map@ == detailed(old(self).map@),
            final(self).map.wf(),
            final(self).rooms@ == old(self).rooms@,
            final(self).sheets() == old(self).sheets(),
            floor_in_margins(final(self).map@),
    {
        // The shape of a floor cell depends on what lies around it: with a
        // wall above and rock to the left, say, it is a top left corner.
        let mut detailed_map = self.map.duplicate();
        let ghost g = self.map@;
        let mut x: usize = 0;
        while x < UNIT_WIDTH
            invariant
                x <= UNIT_WIDTH,
                g == self.map@,
                self.map.wf(),
                detailed_map.wf(),
                floor_in_margins(g),
                self.rooms@ == old(self).rooms@,
                self.map@ == old(self).map@,
                forall|cx: int, cy: int|
                    in_grid(cx, cy) ==> #[trigger] cell(detailed_map@, cx, cy) == (if cx < x {
                        detailed_cell(g, cx, cy)
                    } else {
                        cell(g, cx, cy)
                    }),
            decreases UNIT_WIDTH - x,
        {
            let mut y: usize = 0;
            while y < UNIT_HEIGHT
                invariant
                    x < UNIT_WIDTH,
                    y <= UNIT_HEIGHT,
                    g == self.map@,
                    self.map.wf(),
                    detailed_map.wf(),
                    floor_in_margins(g),
                    self.rooms@ == old(self).rooms@,
                    self.map@ == old(self).map@,
                    forall|cx: int, cy: int|
                        in_grid(cx, cy) ==> #[trigger] cell(detailed_map@, cx, cy) == (if cx < x
                            || (cx == x && cy < y) {
                            detailed_cell(g, cx, cy)
                        } else {
                            cell(g, cx, cy)
                        }),
                decreases UNIT_HEIGHT - y,
            {
                let tile = self.map.get(x, y);
                match tile {
                    TileVariant::Floor(_) => {
                        assert(floor_at(g, (x as int, y as int)));
                        let left = self.map.get(x - 1, y).is_boundary();
                        let right = self.map.get(x + 1, y).is_boundary();
                        let above = self.map.get(x, y + 1).is_boundary();
                        let below = self.map.get(x, y - 1);
                        if left {
                            if above {
                                detailed_map.set(x, y, TileVariant::Floor(FloorVariant::TLCorner));
                            } else if is_ceiling(&below) {
                                detailed_map.set(x, y, TileVariant::Floor(FloorVariant::BLCorner));
                            } else {
                                detailed_map.set(x, y, TileVariant::Floor(FloorVariant::LEdge));
                            }
                        } else if right {
                            if above {
                                detailed_map.set(x, y, TileVariant::Floor(FloorVariant::TRCorner));
                            } else if below.is_boundary() {
                                detailed_map.set(x, y, TileVariant::Floor(FloorVariant::BRCorner));
                            } else {
                                detailed_map.set(x, y, TileVariant::Floor(FloorVariant::REdge));
                            }
                        } else if above {
                            detailed_map.set(x, y, TileVariant::Floor(FloorVariant::TEdge));
                        } else if below.is_boundary() {
                            detailed_map.set(x, y, TileVariant::Floor(FloorVariant::BEdge));
                        } else if self.map.get(x - 1, y + 1).is_boundary() {
                            detailed_map.set(x, y, TileVariant::Floor(FloorVariant::TLOCorner));
                        } else if self.map.get(x + 1, y - 1).is_boundary() {
                            detailed_map.set(x, y, TileVariant::Floor(FloorVariant::BROCorner));
                        } else if self.map.get(x + 1, y + 1).is_boundary() {
                            detailed_map.set(x, y, TileVariant::Floor(FloorVariant::TROCorner));
                        } else if self.map.get(x - 1, y - 1).is_boundary() {
                            detailed_map.set(x, y, TileVariant::Floor(FloorVariant::BLOCorner));
                        }
                    },
                    _ => {},
                }
                y += 1;
            }
            x += 1;
        }
        proof {
            lemma_detailed_cells(g);
            lemma_same_cells(detailed_map@, detailed(g));
            assert forall|cx: int, cy: int| floor_at(detailed_map@, (cx, cy)) implies MIN_ROOM_X
                <= cx <= MAX_ROOM_X && MIN_ROOM_Y <= cy <= MAX_ROOM_Y by {
                assert(floor_at(g, (cx, cy)));
            }
        }
        self.map = detailed_map
    }

    /// Fills the world with the tiles of the grid, column after column.
    ///
    /// Each cell becomes a tile entity at the centre of the cell, raised
    /// where its sprite is taller than the cell; its sprite is drawn from
    /// the sheet of its kind.
    pub fn initialize_map(&self, world: &mut World, rng: &mut StdRng)
        requires
            self.map.wf(),
        ensures
            exists|rolls: Seq<int>|
                self.rolls_fit(rolls) && final(world)@ == self.tiled(old(world)@, rolls, CELLS as int),
            old(world).wf() ==> final(world).wf(),
    {
        // The layout of the map is final: make every cell a tile.
        let ghost mut rolls: Seq<int> = Seq::empty();
        let mut x: usize = 0;
        while x < UNIT_WIDTH
            invariant
                x <= UNIT_WIDTH,
                self.map.wf(),
                rolls.len() == x * UNIT_HEIGHT,
                forall|i: int| 0 <= i < rolls.len() ==> 0 <= #[trigger] rolls[i] < self.map@[i].rolls(),
                world@ == self.tiled(old(world)@, rolls, rolls.len() as int),
                old(world).wf() ==> world.wf(),
            decreases UNIT_WIDTH - x,
        {
            let mut y: usize = 0;
            while y < UNIT_HEIGHT
                invariant
                    x < UNIT_WIDTH,
                    y <= UNIT_HEIGHT,
                    self.map.wf(),
                    rolls.len() == x * UNIT_HEIGHT + y,
                    forall|i: int|
                        0 <= i < rolls.len() ==> 0 <= #[trigger] rolls[i] < self.map@[i].rolls(),
                    world@ == self.tiled(old(world)@, rolls, rolls.len() as int),
                    old(world).wf() ==> world.wf(),
                decreases UNIT_HEIGHT - y,
            {
                let tile = self.map.get(x, y);
                let dims = tile.tile_dimensions();
                let x_coords = calc_tile_center(x);
                let mut y_coords = calc_tile_center(y);
                let handler = match tile {
                    TileVariant::Ceiling => self.ceiling_sheet_handle,
                    TileVariant::Floor(_) => self.floor_sheet_handle,
                    TileVariant::Wall(_) => self.wall_sheet_handle,
                    _ => self.ceiling_sheet_handle,
                };
                if dims[1] != TILE_WIDTH {
                    let ratio = dims[1] / TILE_WIDTH;
                    y_coords += (TILE_WIDTH / ratio) * 1000;
                }
                let ghost before = world@;
                let ghost k = rolls.len() as int;
                proof {
                    lemma_cell_index(x as int, y as int);
                }
                initialize_tile(world, tile, handler, [x_coords, y_coords], rng);
                proof {
                    let roll = choose|roll: int|
                        0 <= roll < tile.rolls() && world@ == with_tile(
                            before,
                            tile,
                            handler,
                            [x_coords, y_coords],
                            tile.id_for_roll(roll),
                        );
                    let extended = rolls.push(roll);
                    self.lemma_tiled_rolls(old(world)@, rolls, extended, k);
                    rolls = extended;
                }
                y += 1;
            }
            x += 1;
        }
        assert(self.rolls_fit(rolls) && world@ == self.tiled(old(world)@, rolls, CELLS as int));
    }

    /// Places the units of every room: the player's unit in the safe room,
    /// and an enemy group in each other room that the roll of a die picks.
    pub fn spawn_npcs(&self, world: &mut World, rng: &mut StdRng)
        requires
            forall|i: int| 0 <= i < self.rooms@.len() ==> (#[trigger] self.rooms@[i]).wf(),
        ensures
            exists|draws: Seq<SpawnDraw>|
                self.draws_fit(draws) && final(world)@ == self.populated(
                    old(world)@,
                    draws,
                    self.rooms@.len() as int,
                ),
            old(world).wf() ==> final(world).wf(),
    {
        let n = self.rooms.len();
        let ghost mut draws: Seq<SpawnDraw> = Seq::empty();
        let mut i: usize = 0;
        while i < n
            invariant
                i <= n,
                n == self.rooms@.len(),
                forall|j: int| 0 <= j < self.rooms@.len() ==> (#[trigger] self.rooms@[j]).wf(),
                draws.len() == i,
                forall|j: int| 0 <= j < i ==> (#[trigger] draws[j]).roll < SPAWN_ROLLS,
                world@ == self.populated(old(world)@, draws, i as int),
                old(world).wf() ==> world.wf(),
            decreases n - i,
        {
            let r = self.rooms[i];
            let draw = SpawnDraw::draw(rng);
            self.spawn_room(world, &r, &draw);
            proof {
                let extended = draws.push(draw);
                self.lemma_populated_draws(old(world)@, draws, extended, i as int);
                draws = extended;
            }
            i += 1;
        }
        assert(self.draws_fit(draws) && world@ == self.populated(
            old(world)@,
            draws,
            self.rooms@.len() as int,
        ));
    }

    /// Places the units of one room, for a given draw.
    pub fn spawn_room(&self, world: &mut World, room: &Room, draw: &SpawnDraw)
        requires
            room.wf(),
        ensures
            final(world)@ == self.with_room(old(world)@, *room, *draw),
            old(world).wf() ==> final(world).wf(),
    {
        let center = room.center();
        let coords = [calc_tile_center(center[0]), calc_tile_center(center[1])];
        // Is this the room in which the player starts?
        if room.safe {
            place_npc(
                world,
                NpcVariant::Normal,
                self.npc_sheet_handle,
                self.auras_sheet_handle,
                coords,
                false,
            );
        } else {
            if draw.roll < room.enemy_spawn_chance {
                self.spawn_enemy_group(world, coords, draw);
            }
        }
    }

    /// Places an enemy group around `center`: a camp fire with one unit
    /// above it and, as the draw says, one to its right and one to its left.
    pub fn spawn_enemy_group(&self, world: &mut World, center: [i32; 2], draw: &SpawnDraw)
        ensures
            final(world)@ == self.with_group(old(world)@, center, *draw),
            old(world).wf() ==> final(world).wf(),
    {
        let group_radius = GROUP_RADIUS as i64;
        initialize_campfire(world, self.scenary_sheet_handle, center);
        self.spawn_npc(
            world,
            NpcVariant::Orc,
            [center[0], saturate(center[1] as i64 + group_radius)],
            draw.alternate,
        );
        if draw.right {
            self.spawn_npc(
                world,
                NpcVariant::Orc,
                [saturate(center[0] as i64 + group_radius), center[1]],
                draw.alternate_right,
            );
        }
        if draw.left {
            self.spawn_npc(
                world,
                NpcVariant::Orc,
                [saturate(center[0] as i64 - group_radius), center[1]],
                draw.alternate_left,
            );
        }
    }

    /// Puts an enemy of the given kind into the world at `coords`.
    pub fn spawn_npc(&self, world: &mut World, variant: NpcVariant, coords: [i32; 2], alternate: bool)
        ensures
            final(world)@ == with_unit(
                old(world)@,
                variant,
                self.orc_mage_sheet_handle,
                self.auras_sheet_handle,
                coords,
                alternate,
            ),
            old(world).wf() ==> final(world).wf(),
    {
        place_npc(
            world,
            variant,
            self.orc_mage_sheet_handle,
            self.auras_sheet_handle,
            coords,
            alternate,
        );
    }
}

} // verus!
