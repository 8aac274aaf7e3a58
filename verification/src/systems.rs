//! The passes of one tick. Each pass reads and changes the store once and
//! keeps no state of its own between ticks, the command pass's memory of
//! the mouse button apart.

use crate::components::SpriteSheets;
use crate::systems::animation::{idle_pass, IdleAnimationSystem};
use crate::systems::combat::{combat_pass, health_bar_pass, CombatSystem, HealthBarSystem};
use crate::systems::commands::{command_pass, CommandInput, CommandSystem};
use crate::systems::enemy_targeting::{targeting_pass, EnemyTargetingSystem};
use crate::systems::layering::{layering_pass, LayeringSystem};
use crate::systems::movement::{movement_pass, MovementSystem};
use crate::world::{Components, Time, World};
use vstd::prelude::*;

pub mod animation;
pub mod combat;
pub mod commands;
pub mod enemy_targeting;
pub mod layering;
pub mod movement;

verus! {

/// The passes in the order in which a tick runs them.
#[derive(Clone, Copy, Debug)]
pub struct Passes {
    pub commands: CommandSystem,
    pub movement: MovementSystem,
    pub targeting: EnemyTargetingSystem,
    pub combat: CombatSystem,
    pub health_bars: HealthBarSystem,
    pub idle: IdleAnimationSystem,
    pub layering: LayeringSystem,
}

/// The store after the command pass of a tick in which `commands` sees `input`.
pub open spec fn after_commands(
    store: Seq<Option<Components>>,
    commands: CommandSystem,
    input: CommandInput,
    sheets: SpriteSheets,
) -> Seq<Option<Components>> {
    if commands.released(input) {
        command_pass(store, sheets, input.pointer->0)
    } else {
        store
    }
}

/// The store after one tick: the passes applied one after the other, each
/// to what the one before it left.
pub open spec fn ticked(
    store: Seq<Option<Components>>,
    commands: CommandSystem,
    input: CommandInput,
    sheets: SpriteSheets,
    time: Time,
) -> Seq<Option<Components>> {
    let commanded = after_commands(store, commands, input, sheets);
    let moved = movement_pass(commanded, time.delta);
    let targeted = targeting_pass(moved);
    let fought = combat_pass(targeted, time, targeted.len() as int);
    let measured = health_bar_pass(fought);
    let idled = idle_pass(measured, time.delta);
    layering_pass(idled)
}

impl Passes {
    /// The passes before the first tick: the mouse button has not been held.
    pub fn new() -> (passes: Passes)
        ensures
            !passes.commands.mouse_was_down,
    {
        Passes {
            commands: CommandSystem { mouse_was_down: false },
            movement: MovementSystem,
            targeting: EnemyTargetingSystem,
            combat: CombatSystem,
            health_bars: HealthBarSystem,
            idle: IdleAnimationSystem,
            layering: LayeringSystem,
        }
    }

    /// Advances the world by one tick.
    ///
    /// The passes run one after the other, and each sees all that the ones
    /// before it did: first the player's commands, then movement, enemy
    /// targeting, combat, health bars, idle animation, and layering.
    pub fn run(&mut self, world: &mut World, input: &CommandInput, sheets: &SpriteSheets, time: &Time)
        requires
            old(world).wf(),
        ensures
            final(world)@ == ticked(old(world)@, old(self).commands, *input, *sheets, *time),
            final(self).commands == old(self).commands.after(*input),
            final(world)@.len() == old(world)@.len(),
            final(world).wf(),
    {
        self.commands.run(world, input, sheets);
        self.movement.run(world, time);
        self.targeting.run(world);
        self.combat.run(world, time);
        self.health_bars.run(world);
        self.idle.run(world, time);
        self.layering.run(world);
    }
}

} // verus!
