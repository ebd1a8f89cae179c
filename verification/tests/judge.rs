use truncate_core::judge::{Judge, Outcome, WordDict};
use truncate_core::reporting::{BattleReport, BattleWord};
use truncate_core::rules::BattleRules;

fn test_rules() -> BattleRules {
    BattleRules { length_delta: 2 }
}

fn short_dict() -> Judge {
    Judge::new(vec![
        "BIG".into(),
        "BAG".into(),
        "FAT".into(),
        "JOLLY".into(),
        "AND".into(),
        "SILLY".into(),
        "FOLK".into(),
        "ARTS".into(),
    ])
}

fn battle(j: &Judge, attackers: &[&str], defenders: &[&str]) -> Option<BattleReport> {
    let attackers: Vec<String> = attackers.iter().map(|w| w.to_string()).collect();
    let defenders: Vec<String> = defenders.iter().map(|w| w.to_string()).collect();
    let external: Option<&WordDict> = None;
    j.battle(attackers, defenders, &test_rules(), external)
}

#[test]
fn no_battle_without_combatants() {
    let j = short_dict();
    assert_eq!(battle(&j, &["WORD"], &[]), None);
    assert_eq!(battle(&j, &[], &["WORD"]), None);
    assert_eq!(battle(&j, &[], &[]), None);
}

#[test]
fn attacker_invalid() {
    let j = short_dict();
    assert_eq!(
        battle(&j, &["XYZ"], &["BIG"]).unwrap().outcome,
        Outcome::DefenderWins
    );
    assert_eq!(
        battle(&j, &["XYZXYZXYZ"], &["BIG"]).unwrap().outcome,
        Outcome::DefenderWins
    );
    assert_eq!(
        battle(&j, &["XYZ", "JOLLY"], &["BIG"]).unwrap().outcome,
        Outcome::DefenderWins
    );
    assert_eq!(
        battle(&j, &["BIG", "XYZ"], &["BIG"]).unwrap().outcome,
        Outcome::DefenderWins
    );
    assert_eq!(
        battle(&j, &["XYZ", "BIG"], &["BIG"]).unwrap().outcome,
        Outcome::DefenderWins
    );
}

#[test]
fn defender_invalid() {
    let j = short_dict();
    assert_eq!(
        battle(&j, &["BIG"], &["XYZ"]).unwrap().outcome,
        Outcome::AttackerWins(vec![0])
    );
    assert_eq!(
        battle(&j, &["BIG"], &["XYZXYZXYZ"]).unwrap().outcome,
        Outcome::AttackerWins(vec![0])
    );
    assert_eq!(
        battle(&j, &["BIG"], &["BIG", "XYZ"]).unwrap().outcome,
        Outcome::AttackerWins(vec![1])
    );
    assert_eq!(
        battle(&j, &["BIG"], &["XYZ", "BIG"]).unwrap().outcome,
        Outcome::AttackerWins(vec![0])
    );
}

#[test]
fn attacker_weaker() {
    let j = short_dict();
    assert_eq!(
        battle(&j, &["JOLLY"], &["FOLK"]).unwrap().outcome,
        Outcome::DefenderWins
    );
    assert_eq!(
        battle(&j, &["JOLLY", "BIG"], &["FOLK"]).unwrap().outcome,
        Outcome::DefenderWins
    );
}

#[test]
fn defender_weaker() {
    let j = short_dict();
    assert_eq!(
        battle(&j, &["JOLLY"], &["FAT"]).unwrap().outcome,
        Outcome::AttackerWins(vec![0])
    );
    assert_eq!(
        battle(&j, &["JOLLY", "BIG"], &["FAT"]).unwrap().outcome,
        Outcome::AttackerWins(vec![0])
    );
    assert_eq!(
        battle(&j, &["JOLLY"], &["FAT", "BIG", "JOLLY", "FOLK", "XYZXYZXYZ"])
            .unwrap()
            .outcome,
        Outcome::AttackerWins(vec![0, 1, 4])
    );
}

#[test]
fn wildcards() {
    let j = short_dict();
    assert_eq!(
        battle(&j, &["B*G"], &["XYZ"]).unwrap().outcome,
        Outcome::AttackerWins(vec![0])
    );
    assert_eq!(
        battle(&j, &["R*G"], &["XYZ"]).unwrap().outcome,
        Outcome::DefenderWins
    );
    assert_eq!(
        battle(&j, &["ARTS"], &["JALL*"]).unwrap().outcome,
        Outcome::AttackerWins(vec![0])
    );
    assert_eq!(
        battle(&j, &["BAG"], &["JOLL*"]).unwrap().outcome,
        Outcome::DefenderWins
    );
}

#[test]
fn aliases() {
    let mut j = short_dict();

    let a_or_b = j.set_alias(vec!['a', 'b']);
    let b_or_c = j.set_alias(vec!['b', 'c']);

    assert_eq!(
        battle(&j, &[format!("B{a_or_b}G").as_str()], &["XYZ"])
            .unwrap()
            .outcome,
        Outcome::AttackerWins(vec![0])
    );
    assert_eq!(
        battle(&j, &[format!("B{b_or_c}G").as_str()], &["XYZ"])
            .unwrap()
            .outcome,
        Outcome::DefenderWins
    );
    assert_eq!(
        battle(&j, &[format!("{b_or_c}{a_or_b}G").as_str()], &["XYZ"])
            .unwrap()
            .outcome,
        Outcome::AttackerWins(vec![0])
    );
}

#[test]
fn multi_aliases() {
    let mut j = short_dict();

    let o_or_l = j.set_alias(vec!['o', 'l']);
    let two_ls = j.set_alias(vec!['l', 'l']);

    // A tile's alias assignment cannot be double-dipped.
    assert_eq!(
        battle(&j, &[format!("JO{o_or_l}{o_or_l}Y").as_str()], &["XYZ"])
            .unwrap()
            .outcome,
        Outcome::DefenderWins
    );
    // But several slots of the same alias may be spent.
    assert_eq!(
        battle(&j, &[format!("JO{two_ls}{two_ls}Y").as_str()], &["XYZ"])
            .unwrap()
            .outcome,
        Outcome::AttackerWins(vec![0])
    );
    // And so may different aliases.
    assert_eq!(
        battle(&j, &[format!("J{o_or_l}L{o_or_l}Y").as_str()], &["XYZ"])
            .unwrap()
            .outcome,
        Outcome::AttackerWins(vec![0])
    );
}

#[test]
fn battle_report() {
    let j = short_dict();
    assert_eq!(
        battle(&j, &["B*G"], &["XYZ"]),
        Some(BattleReport {
            attackers: vec![BattleWord {
                word: "BAG".into(),
                meanings: None,
                valid: Some(true)
            }],
            defenders: vec![BattleWord {
                word: "XYZ".into(),
                meanings: None,
                valid: Some(false)
            }],
            outcome: Outcome::AttackerWins(vec![0])
        })
    );
    assert_eq!(
        battle(&j, &["R*G"], &["XYZ"]),
        Some(BattleReport {
            attackers: vec![BattleWord {
                word: "R*G".into(),
                meanings: None,
                valid: Some(false)
            }],
            defenders: vec![BattleWord {
                word: "XYZ".into(),
                meanings: None,
                valid: None
            }],
            outcome: Outcome::DefenderWins
        })
    );

    assert_eq!(
        battle(&j, &["ARTS"], &["JALL*"]),
        Some(BattleReport {
            attackers: vec![BattleWord {
                word: "ARTS".into(),
                meanings: None,
                valid: Some(true)
            }],
            defenders: vec![BattleWord {
                word: "JALL*".into(),
                meanings: None,
                valid: Some(false)
            }],
            outcome: Outcome::AttackerWins(vec![0])
        })
    );
    assert_eq!(
        battle(&j, &["BAG"], &["JOLL*"]),
        Some(BattleReport {
            attackers: vec![BattleWord {
                word: "BAG".into(),
                meanings: None,
                valid: Some(true)
            }],
            defenders: vec![BattleWord {
                word: "JOLLY".into(),
                meanings: None,
                valid: Some(true)
            }],
            outcome: Outcome::DefenderWins
        })
    );
}
