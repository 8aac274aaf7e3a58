//! The component records that an entity may carry.

use crate::units::UNIT;
use vstd::prelude::*;

pub mod animated;
pub mod npc;
pub mod scenary;
pub mod tile;

verus! {

/// Marks an entity whose draw depth follows its vertical position.
#[derive(Clone, Copy, Debug)]
pub struct Layered;

/// The sprite sheets that the renderer knows, by name.
#[derive(Clone, Copy, Debug, PartialEq, Eq, Structural)]
pub enum SpriteSheetId {
    Auras,
    Floor,
    Ceiling,
    Walls,
    Warrior,
    Orc,
    CampFire,
}

/// What to draw for an entity: a sheet and the index of a frame on it.
#[derive(Clone, Copy, Debug)]
pub struct SpriteRender {
    pub sprite_sheet: SpriteSheetId,
    pub sprite_number: usize,
}

/// Size of one frame of a sheet as it is drawn, in thousandths of a unit.
#[derive(Clone, Copy, Debug)]
pub struct Sprite {
    pub width: i32,
    pub height: i32,
}

/// What the library needs to know of a sprite sheet: the sizes of its frames, by index.
#[derive(Debug)]
pub struct SpriteSheet {
    pub sprites: Vec<Sprite>,
}

/// The sheets that have been loaded, each `None` until it has.
#[derive(Debug)]
pub struct SpriteSheets {
    pub auras: Option<SpriteSheet>,
    pub floor: Option<SpriteSheet>,
    pub ceiling: Option<SpriteSheet>,
    pub walls: Option<SpriteSheet>,
    pub warrior: Option<SpriteSheet>,
    pub orc: Option<SpriteSheet>,
    pub camp_fire: Option<SpriteSheet>,
}

impl SpriteSheets {
    /// The sheet of the given name, if it has been loaded.
    pub open spec fn sheet(self, id: SpriteSheetId) -> Option<SpriteSheet> {
        match id {
            SpriteSheetId::Auras => self.auras,
            SpriteSheetId::Floor => self.floor,
            SpriteSheetId::Ceiling => self.ceiling,
            SpriteSheetId::Walls => self.walls,
            SpriteSheetId::Warrior => self.warrior,
            SpriteSheetId::Orc => self.orc,
            SpriteSheetId::CampFire => self.camp_fire,
        }
    }

    /// The size of the frame that `render` names, if its sheet has been loaded and holds it.
    pub open spec fn size_of(self, render: SpriteRender) -> Option<Sprite> {
        match self.sheet(render.sprite_sheet) {
            Some(sheet) => if render.sprite_number < sheet.sprites@.len() {
                Some(sheet.sprites@[render.sprite_number as int])
            } else {
                None
            },
            None => None,
        }
    }

    /// The size of the frame that `render` names, or `None` where the sheet
    /// has not been loaded or has no such frame.
    pub fn sprite_size(&self, render: &SpriteRender) -> (size: Option<Sprite>)
        ensures
            size == self.size_of(*render),
    {
        let sheet = match render.sprite_sheet {
            SpriteSheetId::Auras => &self.auras,
            SpriteSheetId::Floor => &self.floor,
            SpriteSheetId::Ceiling => &self.ceiling,
            SpriteSheetId::Walls => &self.walls,
            SpriteSheetId::Warrior => &self.warrior,
            SpriteSheetId::Orc => &self.orc,
            SpriteSheetId::CampFire => &self.camp_fire,
        };
        match sheet {
            Some(sheet) => {
                if render.sprite_number < sheet.sprites.len() {
                    Some(sheet.sprites[render.sprite_number])
                } else {
                    None
                }
            },
            None => None,
        }
    }
}

/// Position and scale of an entity in the world, in thousandths of a unit.
///
/// A negative horizontal scale draws the sprite mirrored: it faces left.
#[derive(Clone, Copy, Debug)]
pub struct Transform {
    pub x: i32,
    pub y: i32,
    pub z: i32,
    pub scale_x: i32,
    pub scale_y: i32,
    pub scale_z: i32,
}

impl Transform {
    /// The transform at the given place with unit scale.
    pub open spec fn placed(x: i32, y: i32, z: i32) -> Transform {
        Transform { x, y, z, scale_x: 1000, scale_y: 1000, scale_z: 1000 }
    }

    /// A transform at the given place, with unit scale.
    pub fn at(x: i32, y: i32, z: i32) -> (t: Transform)
        ensures
            t == Transform::placed(x, y, z),
    {
        Transform { x, y, z, scale_x: UNIT, scale_y: UNIT, scale_z: UNIT }
    }
}

impl Default for Transform {
    fn default() -> (t: Transform)
        ensures
            t == Transform::placed(0, 0, 0),
    {
        Transform::at(0, 0, 0)
    }
}

} // verus!
