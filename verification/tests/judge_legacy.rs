use truncate_core::board::{Board, Coordinate, Square};
use truncate_core::judge::{Judge, Outcome, WordDict};
use truncate_core::reporting::{BattleReport, BattleWord};
use truncate_core::rules::BattleRules;

fn test_rules() -> BattleRules {
    BattleRules { length_delta: 2 }
}

fn short_dict() -> Judge {
    Judge::new(vec![
        "BIG".into(),
        "BAG".into(),
        "FAT".into(),
        "JOLLY".into(),
        "AND".into(),
        "SILLY".into(),
        "FOLK".into(),
        "ARTS".into(),
    ])
}

fn battle(j: &Judge, attackers: &[&str], defenders: &[&str]) -> Option<BattleReport> {
    let attackers: Vec<String> = attackers.iter().map(|w| w.to_string()).collect();
    let defenders: Vec<String> = defenders.iter().map(|w| w.to_string()).collect();
    let external: Option<&WordDict> = None;
    j.battle(attackers, defenders, &test_rules(), external)
}

#[test]
fn judge_no_battle_without_combatants() {
    let j = short_dict();
    assert_eq!(battle(&j, &["WORD"], &[]), None);
    assert_eq!(battle(&j, &[], &["WORD"]), None);
    assert_eq!(battle(&j, &[], &[]), None);
}

#[test]
fn judge_attacker_invalid() {
    let j = short_dict();
    assert_eq!(
        battle(&j, &["XYZ"], &["BIG"]).unwrap().outcome,
        Outcome::DefenderWins
    );
    assert_eq!(
        battle(&j, &["XYZXYZXYZ"], &["BIG"]).unwrap().outcome,
        Outcome::DefenderWins
    );
    assert_eq!(
        battle(&j, &["XYZ", "JOLLY"], &["BIG"]).unwrap().outcome,
        Outcome::DefenderWins
    );
    assert_eq!(
        battle(&j, &["BIG", "XYZ"], &["BIG"]).unwrap().outcome,
        Outcome::DefenderWins
    );
    assert_eq!(
        battle(&j, &["XYZ", "BIG"], &["BIG"]).unwrap().outcome,
        Outcome::DefenderWins
    );
}

#[test]
fn judge_defender_invalid() {
    let j = short_dict();
    assert_eq!(
        battle(&j, &["BIG"], &["XYZ"]).unwrap().outcome,
        Outcome::AttackerWins(vec![0])
    );
    assert_eq!(
        battle(&j, &["BIG"], &["XYZXYZXYZ"]).unwrap().outcome,
        Outcome::AttackerWins(vec![0])
    );
    assert_eq!(
        battle(&j, &["BIG"], &["BIG", "XYZ"]).unwrap().outcome,
        Outcome::AttackerWins(vec![1])
    );
    assert_eq!(
        battle(&j, &["BIG"], &["XYZ", "BIG"]).unwrap().outcome,
        Outcome::AttackerWins(vec![0])
    );
}

#[test]
fn judge_attacker_weaker() {
    let j = short_dict();
    assert_eq!(
        battle(&j, &["JOLLY"], &["FOLK"]).unwrap().outcome,
        Outcome::DefenderWins
    );
    assert_eq!(
        battle(&j, &["JOLLY", "BIG"], &["FOLK"]).unwrap().outcome,
        Outcome::DefenderWins
    );
}

#[test]
fn judge_defender_weaker() {
    let j = short_dict();
    assert_eq!(
        battle(&j, &["JOLLY"], &["FAT"]).unwrap().outcome,
        Outcome::AttackerWins(vec![0])
    );
    assert_eq!(
        battle(&j, &["JOLLY", "BIG"], &["FAT"]).unwrap().outcome,
        Outcome::AttackerWins(vec![0])
    );
    assert_eq!(
        battle(&j, &["JOLLY"], &["FAT", "BIG", "JOLLY", "FOLK", "XYZXYZXYZ"])
            .unwrap()
            .outcome,
        Outcome::AttackerWins(vec![0, 1, 4])
    );
}

#[test]
fn judge_wildcards() {
    let j = short_dict();
    assert_eq!(
        battle(&j, &["B*G"], &["XYZ"]).unwrap().outcome,
        Outcome::AttackerWins(vec![0])
    );
    assert_eq!(
        battle(&j, &["R*G"], &["XYZ"]).unwrap().outcome,
        Outcome::DefenderWins
    );
    assert_eq!(
        battle(&j, &["ARTS"], &["JALL*"]).unwrap().outcome,
        Outcome::AttackerWins(vec![0])
    );
    assert_eq!(
        battle(&j, &["BAG"], &["JOLL*"]).unwrap().outcome,
        Outcome::DefenderWins
    );
}

#[test]
fn judge_battle_report() {
    let j = short_dict();
    assert_eq!(
        battle(&j, &["B*G"], &["XYZ"]),
        Some(BattleReport {
            attackers: vec![BattleWord {
                word: "BAG".into(),
                meanings: None,
                valid: Some(true)
            }],
            defenders: vec![BattleWord {
                word: "XYZ".into(),
                meanings: None,
                valid: Some(false)
            }],
            outcome: Outcome::AttackerWins(vec![0])
        })
    );
    assert_eq!(
        battle(&j, &["R*G"], &["XYZ"]),
        Some(BattleReport {
            attackers: vec![BattleWord {
                word: "R*G".into(),
                meanings: None,
                valid: Some(false)
            }],
            defenders: vec![BattleWord {
                word: "XYZ".into(),
                meanings: None,
                valid: None
            }],
            outcome: Outcome::DefenderWins
        })
    );

    assert_eq!(
        battle(&j, &["ARTS"], &["JALL*"]),
        Some(BattleReport {
            attackers: vec![BattleWord {
                word: "ARTS".into(),
                meanings: None,
                valid: Some(true)
            }],
            defenders: vec![BattleWord {
                word: "JALL*".into(),
                meanings: None,
                valid: Some(false)
            }],
            outcome: Outcome::AttackerWins(vec![0])
        })
    );
    assert_eq!(
        battle(&j, &["BAG"], &["JOLL*"]),
        Some(BattleReport {
            attackers: vec![BattleWord {
                word: "BAG".into(),
                meanings: None,
                valid: Some(true)
            }],
            defenders: vec![BattleWord {
                word: "JOLLY".into(),
                meanings: None,
                valid: Some(true)
            }],
            outcome: Outcome::DefenderWins
        })
    );
}

#[test]
fn win_condition() {
    let mut b = Board::new(5, 6);
    // Player 1's town sits at the bottom edge; player 0 has tiles near the
    // top, too far away to matter.
    b.squares[5][0] = Square::Town {
        player: 1,
        defeated: false,
        foggy: false,
    };
    for y in 0..3 {
        b.squares[y][0] = Square::Occupied {
            player: 0,
            tile: 'X',
            validity: truncate_core::board::SquareValidity::Unknown,
            foggy: false,
        };
    }
    b.cache_special_squares();

    assert_eq!(Judge::winner(&b), None);
    b.set(Coordinate { x: 0, y: 4 }, 0, 'X').unwrap();
    assert_eq!(Judge::winner(&b), Some(0));
}
