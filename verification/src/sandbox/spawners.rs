//! The composition of monster waves.
use vstd::prelude::*;

verus! {

/// The kinds of monster a wave can hold.
#[derive(Debug, Clone, Copy, PartialEq, Eq, Structural)]
pub enum MonsterType {
    Wolf,
}

/// One monster of a wave.
#[derive(Debug, Clone, Copy, PartialEq, Eq, Structural)]
pub struct MonsterSpec {
    pub monster_type: MonsterType,
}

/// The monsters of a wave, in spawning order.
#[derive(Debug, Clone)]
pub struct WaveSpec {
    pub monsters: Vec<MonsterSpec>,
}

/// What a spawner placed at the border emits.
#[derive(Debug, Clone)]
pub struct SpawnerSpec {
    pub wave: WaveSpec,
}

/// The number of wolves in the wave of day `day` (counted from 0): fifteen
/// on the first day and five more on each later one.
pub open spec fn wolves_on_day(day: int) -> int {
    15 + 5 * day
}

/// `waves` is what day `day` sends: one spawner of `wolves_on_day(day)`
/// wolves.
pub open spec fn is_day_waves(waves: Seq<SpawnerSpec>, day: int) -> bool {
    &&& waves.len() == 1
    &&& waves[0].wave.monsters@.len() == wolves_on_day(day)
    &&& forall|k: int|
        0 <= k < wolves_on_day(day) ==> (#[trigger] waves[0].wave.monsters@[k]).monster_type
            == MonsterType::Wolf
}

/// Emits the monsters of a wave one by one, each time its cooldown has run
/// out, until the wave is exhausted. The cooldown itself is kept by the
/// caller.
#[derive(Debug)]
pub struct WaveSpawner {
    wave_spec: WaveSpec,
    num_monsters: usize,
    current_monster_index: usize,
}

impl WaveSpawner {
    #[verifier::type_invariant]
    spec fn consistent(&self) -> bool {
        &&& self.num_monsters == self.wave_spec.monsters@.len()
        &&& self.current_monster_index <= self.num_monsters
    }

    /// The monsters of the wave, in spawning order.
    pub closed spec fn monsters(&self) -> Seq<MonsterSpec> {
        self.wave_spec.monsters@
    }

    /// How many monsters have been emitted so far.
    pub closed spec fn emitted(&self) -> int {
        self.current_monster_index as int
    }

    /// The spawner of `spec`, before its first monster.
    pub fn create(spec: WaveSpec) -> (r: WaveSpawner)
        ensures
            r.monsters() == spec.monsters@,
            r.emitted() == 0,
    {
        let num_monsters = spec.monsters.len();
        WaveSpawner { wave_spec: spec, num_monsters, current_monster_index: 0 }
    }

    /// Whether every monster of the wave has been emitted.
    pub fn is_finished(&self) -> (r: bool)
        ensures
            r == (self.emitted() >= self.monsters().len()),
            0 <= self.emitted() <= self.monsters().len(),
    {
        proof {
            use_type_invariant(self);
        }
        return self.current_monster_index >= self.num_monsters;
    }

    /// One step of the wave: when it is not finished and `cooldown_elapsed`,
    /// emits the next monster; otherwise emits nothing and changes nothing.
    pub fn progress(&mut self, cooldown_elapsed: bool) -> (r: Option<MonsterSpec>)
        ensures
            final(self).monsters() == old(self).monsters(),
            final(self).emitted() == emitted_after(
                old(self).emitted(),
                old(self).monsters().len() as int,
                cooldown_elapsed,
            ),
            0 <= old(self).emitted() <= old(self).monsters().len(),
            if old(self).emitted() < old(self).monsters().len() && cooldown_elapsed {
                &&& r == Some(old(self).monsters()[old(self).emitted()])
                &&& final(self).emitted() == old(self).emitted() + 1
            } else {
                &&& r is None
                &&& final(self).emitted() == old(self).emitted()
            },
    {
        proof {
            use_type_invariant(&*self);
        }
        if self.is_finished() {
            return None;
        }
        if cooldown_elapsed {
            let res = Some(self.wave_spec.monsters[self.current_monster_index]);
            self.current_monster_index += 1;
            return res;
        }
        return None;
    }
}

/// The emission count after a step: one more when the wave is not finished
/// and the cooldown has run out.
pub open spec fn emitted_after(emitted: int, total: int, cooldown_elapsed: bool) -> int {
    if emitted < total && cooldown_elapsed {
        emitted + 1
    } else {
        emitted
    }
}

/// A wave emits at most as many monsters as it holds, and once finished it
/// stays finished, whatever steps follow.
pub proof fn lemma_wave_bounded(emitted: int, total: int, cooldown_elapsed: bool)
    requires
        0 <= emitted <= total,
    ensures
        emitted <= emitted_after(emitted, total, cooldown_elapsed) <= total,
        emitted >= total ==> emitted_after(emitted, total, cooldown_elapsed) == emitted,
{
}

/// One day of the game: how long the day and the night last, in whole
/// seconds, and the waves the night sends.
#[derive(Debug)]
pub struct GameDay {
    pub day_length: u32,
    pub night_length: u32,
    pub waves: Vec<SpawnerSpec>,
}

/// The length of the night of day `day` (counted from 0), in seconds: twenty
/// on the first day and ten more on each later one.
pub open spec fn night_length_on_day(day: int) -> int {
    20 + 10 * day
}

/// The six days of the game, in order: each day lasts five seconds, its
/// night `night_length_on_day(day)` seconds, and its one spawner sends
/// `wolves_on_day(day)` wolves.
pub fn generate_days() -> (r: Vec<GameDay>)
    ensures
        r@.len() == 6,
        forall|day: int|
            0 <= day < 6 ==> {
                &&& (#[trigger] r@[day]).day_length == 5
                &&& r@[day].night_length == night_length_on_day(day)
                &&& is_day_waves(r@[day].waves@, day)
            },
{
    let mut days: Vec<GameDay> = Vec::new();
    let mut day: u32 = 0;
    while day < 6
        invariant
            day <= 6,
            days@.len() == day,
            forall|d: int|
                0 <= d < day ==> {
                    &&& (#[trigger] days@[d]).day_length == 5
                    &&& days@[d].night_length == night_length_on_day(d)
                    &&& is_day_waves(days@[d].waves@, d)
                },
        decreases 6 - day,
    {
        let count: usize = 15 + 5 * day as usize;
        let mut monsters: Vec<MonsterSpec> = Vec::new();
        let mut k: usize = 0;
        while k < count
            invariant
                k <= count,
                monsters@.len() == k,
                forall|j: int| 0 <= j < k ==> (#[trigger] monsters@[j]).monster_type == MonsterType::Wolf,
            decreases count - k,
        {
            monsters.push(MonsterSpec { monster_type: MonsterType::Wolf });
            k += 1;
        }
        let waves = vec![SpawnerSpec { wave: WaveSpec { monsters } }];
        days.push(GameDay { day_length: 5, night_length: 20 + 10 * day, waves });
        day += 1;
    }
    days
}

} // verus!
