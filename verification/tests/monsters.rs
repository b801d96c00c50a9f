use worker_protocol::monsters::{monsters_attack, Attack, Monster, Species};

#[test]
fn each_monster_enters_with_the_values_of_its_kind() {
    let monkey = Monster::new(Species::IndustrialRaverMonkey);
    assert_eq!((monkey.life, monkey.strength, monkey.charisma, monkey.weapon), (46, 35, 91, 2));
    let angel = Monster::new(Species::DwarvenAngel);
    assert_eq!((angel.life, angel.strength, angel.charisma, angel.weapon), (540, 6, 144, 50));
    let tentacle = Monster::new(Species::AssistantViceTentacleAndOmbudsman);
    assert_eq!(
        (tentacle.life, tentacle.strength, tentacle.charisma, tentacle.weapon),
        (320, 6, 144, 50)
    );
    let deer = Monster::new(Species::TeethDeer);
    assert_eq!((deer.life, deer.strength, deer.charisma, deer.weapon), (655, 192, 19, 109));
    let cyclist = Monster::new(Species::IntrepidDecomposedCyclist);
    assert_eq!(
        (cyclist.life, cyclist.strength, cyclist.charisma, cyclist.weapon),
        (901, 560, 422, 105)
    );
    let dragon = Monster::new(Species::Dragon);
    assert_eq!(
        (dragon.life, dragon.strength, dragon.charisma, dragon.weapon),
        (1340, 451, 1020, 939)
    );
    assert_eq!(dragon.species, Species::Dragon);
}

#[test]
fn a_monster_attacks_with_its_strength() {
    let deer = Monster::new(Species::TeethDeer);
    assert_eq!(deer.attack(), Attack { attacker: Species::TeethDeer, damage: 192 });
    let odd = Monster { species: Species::Dragon, life: 1, strength: -3, charisma: 0, weapon: 900 };
    assert_eq!(odd.attack(), Attack { attacker: Species::Dragon, damage: -3 });
}

#[test]
fn the_monsters_attack_in_their_order() {
    let array = [
        Monster::new(Species::IndustrialRaverMonkey),
        Monster::new(Species::DwarvenAngel),
        Monster::new(Species::AssistantViceTentacleAndOmbudsman),
        Monster::new(Species::TeethDeer),
        Monster::new(Species::IntrepidDecomposedCyclist),
        Monster::new(Species::Dragon),
    ];
    let attacks = monsters_attack(&array);
    let damage: Vec<i64> = attacks.iter().map(|attack| attack.damage).collect();
    assert_eq!(damage, vec![35, 6, 6, 192, 560, 451]);
    let nouns: Vec<&str> = attacks.iter().map(|attack| attack.attacker.noun()).collect();
    assert_eq!(nouns, vec!["monkey", "angel", "tentacle", "deer", "cyclist", "dragon"]);
}

#[test]
fn no_monsters_no_attacks() {
    assert_eq!(monsters_attack(&[]), vec![]);
}

#[test]
fn a_monster_strikes_with_its_weapon() {
    let monkey = Monster::new(Species::IndustrialRaverMonkey);
    assert_eq!(
        monkey.strike(),
        Attack { attacker: Species::IndustrialRaverMonkey, damage: 2 }
    );
    assert_eq!(Monster::new(Species::Dragon).strike().damage, 939);
}
