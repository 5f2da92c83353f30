use gouda::sandbox::monster::{DamageDealt, Monster};
use gouda::sandbox::spawners::{MonsterSpec, MonsterType, SpawnerSpec, WaveSpawner, WaveSpec};
use gouda::sandbox::supplies::Supplies;

#[test]
fn spending_needs_every_part_covered() {
    let mut s = Supplies::new();
    assert_eq!((s.gold, s.wood, s.stone), (0, 0, 0));
    s.add_wood(7);
    s._add_gold(3);
    s._add_stone(1);
    assert!(!s.spend_supplies(0, 5, 2));
    assert_eq!((s.gold, s.wood, s.stone), (3, 7, 1));
    assert!(s.spend_supplies(0, 5, 0));
    assert_eq!((s.gold, s.wood, s.stone), (3, 2, 1));
    assert!(s.spend_supplies(3, 2, 1));
    assert_eq!((s.gold, s.wood, s.stone), (0, 0, 0));
    assert!(!s.spend_supplies(0, 1, 0));
    s.add_wood(-4);
    assert_eq!(s.wood, -4);
}

#[test]
fn monster_health_saturates() {
    let mut m = Monster::create();
    assert_eq!(m.health(), 2);
    assert!(!m.is_dead());
    let hit = DamageDealt { damage: 1 };
    m.take_damage(hit.damage);
    assert_eq!(m.health(), 1);
    m.take_damage(5);
    assert_eq!(m.health(), 0);
    assert!(m.is_dead());
    m.take_damage(u32::MAX);
    assert!(m.is_dead());
}

#[test]
fn damage_adds_up() {
    let mut a = Monster::create();
    a.take_damage(1);
    a.take_damage(1);
    let mut b = Monster::create();
    b.take_damage(2);
    assert_eq!(a.health(), b.health());
}

#[test]
fn waves_hold_their_monsters() {
    let wave = WaveSpec { monsters: vec![MonsterSpec { monster_type: MonsterType::Wolf }; 15] };
    let spawner = SpawnerSpec { wave: wave.clone() };
    assert_eq!(spawner.wave.monsters.len(), 15);
    assert_eq!(wave.monsters[14], MonsterSpec { monster_type: MonsterType::Wolf });
}

#[test]
fn days_send_growing_wolf_packs() {
    let days = gouda::sandbox::spawners::generate_days();
    assert_eq!(days.len(), 6);
    let sizes: Vec<usize> = days.iter().map(|d| d.waves[0].wave.monsters.len()).collect();
    assert_eq!(sizes, vec![15, 20, 25, 30, 35, 40]);
    let nights: Vec<u32> = days.iter().map(|d| d.night_length).collect();
    assert_eq!(nights, vec![20, 30, 40, 50, 60, 70]);
    assert!(days.iter().all(|d| d.day_length == 5 && d.waves.len() == 1));
    assert!(days[5].waves[0].wave.monsters.iter().all(|m| m.monster_type == MonsterType::Wolf));
}

#[test]
fn wave_spawner_emits_each_monster_once() {
    let wave = WaveSpec { monsters: vec![MonsterSpec { monster_type: MonsterType::Wolf }; 2] };
    let mut spawner = WaveSpawner::create(wave);
    assert!(!spawner.is_finished());
    assert_eq!(spawner.progress(false), None);
    assert_eq!(spawner.progress(true), Some(MonsterSpec { monster_type: MonsterType::Wolf }));
    assert!(!spawner.is_finished());
    assert!(spawner.progress(true).is_some());
    assert!(spawner.is_finished());
    assert_eq!(spawner.progress(true), None);
    assert!(spawner.is_finished());
    let mut empty = WaveSpawner::create(WaveSpec { monsters: vec![] });
    assert!(empty.is_finished());
    assert_eq!(empty.progress(true), None);
}
