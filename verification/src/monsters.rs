//! The monsters of the array, each with its fixed values, and their attacks.

use vstd::prelude::*;

verus! {

/// The kinds of monster.
#[derive(Debug, Clone, Copy, PartialEq, Eq)]
pub enum Species {
    IndustrialRaverMonkey,
    DwarvenAngel,
    AssistantViceTentacleAndOmbudsman,
    TeethDeer,
    IntrepidDecomposedCyclist,
    Dragon,
}

/// A monster with its values.
#[derive(Debug, Clone, Copy, PartialEq, Eq)]
pub struct Monster {
    pub species: Species,
    pub life: i64,
    pub strength: i64,
    pub charisma: i64,
    pub weapon: i64,
}

/// One attack: who attacks, and for how much.
#[derive(Debug, Clone, Copy, PartialEq, Eq)]
pub struct Attack {
    pub attacker: Species,
    pub damage: i64,
}

impl Species {
    /// The word by which an attack names a monster of this kind.
    pub fn noun(&self) -> (word: &'static str)
        ensures
            word@ == match *self {
                Species::IndustrialRaverMonkey => "monkey"@,
                Species::DwarvenAngel => "angel"@,
                Species::AssistantViceTentacleAndOmbudsman => "tentacle"@,
                Species::TeethDeer => "deer"@,
                Species::IntrepidDecomposedCyclist => "cyclist"@,
                Species::Dragon => "dragon"@,
            },
    {
        match self {
            Species::IndustrialRaverMonkey => "monkey",
            Species::DwarvenAngel => "angel",
            Species::AssistantViceTentacleAndOmbudsman => "tentacle",
            Species::TeethDeer => "deer",
            Species::IntrepidDecomposedCyclist => "cyclist",
            Species::Dragon => "dragon",
        }
    }
}

impl Monster {
    /// A monster of the kind `species` as it enters the array.
    pub open spec fn fresh(species: Species) -> Monster {
        match species {
            Species::IndustrialRaverMonkey => Monster {
                species,
                life: 46,
                strength: 35,
                charisma: 91,
                weapon: 2,
            },
            Species::DwarvenAngel => Monster {
                species,
                life: 540,
                strength: 6,
                charisma: 144,
                weapon: 50,
            },
            Species::AssistantViceTentacleAndOmbudsman => Monster {
                species,
                life: 320,
                strength: 6,
                charisma: 144,
                weapon: 50,
            },
            Species::TeethDeer => Monster {
                species,
                life: 655,
                strength: 192,
                charisma: 19,
                weapon: 109,
            },
            Species::IntrepidDecomposedCyclist => Monster {
                species,
                life: 901,
                strength: 560,
                charisma: 422,
                weapon: 105,
            },
            Species::Dragon => Monster {
                species,
                life: 1340,
                strength: 451,
                charisma: 1020,
                weapon: 939,
            },
        }
    }

    /// The attack of this monster: it strikes with its strength.
    pub open spec fn blow(self) -> Attack {
        Attack { attacker: self.species, damage: self.strength }
    }

    /// The attack of this monster with its weapon.
    pub open spec fn armed_blow(self) -> Attack {
        Attack { attacker: self.species, damage: self.weapon }
    }

    /// A monster of the kind `species` with the values of its kind.
    pub fn new(species: Species) -> (monster: Monster)
        ensures
            monster == Monster::fresh(species),
    {
        match species {
            Species::IndustrialRaverMonkey => Monster {
                species,
                life: 46,
                strength: 35,
                charisma: 91,
                weapon: 2,
            },
            Species::DwarvenAngel => Monster {
                species,
                life: 540,
                strength: 6,
                charisma: 144,
                weapon: 50,
            },
            Species::AssistantViceTentacleAndOmbudsman => Monster {
                species,
                life: 320,
                strength: 6,
                charisma: 144,
                weapon: 50,
            },
            Species::TeethDeer => Monster {
                species,
                life: 655,
                strength: 192,
                charisma: 19,
                weapon: 109,
            },
            Species::IntrepidDecomposedCyclist => Monster {
                species,
                life: 901,
                strength: 560,
                charisma: 422,
                weapon: 105,
            },
            Species::Dragon => Monster {
                species,
                life: 1340,
                strength: 451,
                charisma: 1020,
                weapon: 939,
            },
        }
    }

    /// The attack of this monster.
    pub fn attack(&self) -> (attack: Attack)
        ensures
            attack == self.blow(),
    {
        Attack { attacker: self.species, damage: self.strength }
    }

    /// The attack of this monster with its weapon.
    pub fn strike(&self) -> (attack: Attack)
        ensures
            attack == self.armed_blow(),
    {
        Attack { attacker: self.species, damage: self.weapon }
    }
}

/// The attacks of `monsters`, one for each, in their order.
pub fn monsters_attack(monsters: &[Monster]) -> (attacks: Vec<Attack>)
    ensures
        attacks@ == monsters@.map_values(|monster: Monster| monster.blow()),
{
    let mut attacks: Vec<Attack> = Vec::new();
    let mut next: usize = 0;
    while next < monsters.len()
        invariant
            next <= monsters.len(),
            attacks@ == monsters@.take(next as int).map_values(|monster: Monster| monster.blow()),
        decreases monsters.len() - next,
    {
        attacks.push(monsters[next].attack());
        proof {
        }
        next = next + 1;
    }
    proof {
    }
    attacks
}

} // verus!
