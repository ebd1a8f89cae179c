use truncate_core::judge::{Judge, Outcome, WordData, WordDict};
use truncate_core::rules::BattleRules;

fn test_rules() -> BattleRules {
    BattleRules { length_delta: 2 }
}

fn short_dict() -> Judge {
    Judge::new(vec![
        "BIG".into(),
        "BAG".into(),
        "FAT".into(),
        "JOLLY".into(),
        "AND".into(),
        "SILLY".into(),
        "FOLK".into(),
        "ARTS".into(),
    ])
}

#[test]
fn valid_uppercases_plain_words() {
    let j = short_dict();
    assert_eq!(j.valid("big", None, None), Some("BIG".to_string()));
    assert_eq!(j.valid("BiG", None, None), Some("BIG".to_string()));
    assert_eq!(j.valid("BOG", None, None), None);
}

#[test]
fn valid_resolves_wildcard_alphabetically() {
    // Both BAG and BIG match B*G; the first matching letter in alphabetical
    // order wins, so the resolution is BAG.
    let j = short_dict();
    assert_eq!(j.valid("B*G", None, None), Some("BAG".to_string()));
    assert_eq!(j.valid("R*G", None, None), None);
    // With only BIG in the dictionary the same wildcard lands on the I.
    let j2 = Judge::new(vec!["BIG".into()]);
    assert_eq!(j2.valid("B*G", None, None), Some("BIG".to_string()));
}

#[test]
fn valid_accepts_instant_win_marker() {
    let j = short_dict();
    assert_eq!(j.valid("x¤z", None, None), Some("X¤Z".to_string()));
}

#[test]
fn instant_win_marker_beats_everyone_unharmed() {
    let j = short_dict();
    let report = j
        .battle(
            vec!["B¤G".to_string()],
            vec!["JOLLY".to_string()],
            &test_rules(),
            None,
        )
        .unwrap();
    // The attacker wins outright, but no defender is defeated.
    assert_eq!(report.outcome, Outcome::AttackerWins(vec![]));
}

#[test]
fn external_dictionary_replaces_builtin() {
    let j = short_dict();
    let mut external = WordDict::new();
    external.insert(
        "zed".to_string(),
        WordData {
            extensions: 0,
            objectionable: false,
        },
    );
    assert_eq!(j.valid("ZED", Some(&external), None), Some("ZED".to_string()));
    // The built-in words are not consulted while an external dictionary is
    // supplied.
    assert_eq!(j.valid("BIG", Some(&external), None), None);
}

#[test]
fn default_judge_knows_no_words() {
    let j = Judge::default();
    assert_eq!(j.valid("BIG", None, None), None);
}

#[test]
fn outcomes_described_in_words() {
    assert_eq!(Outcome::DefenderWins.describe(), "Defender wins");
    assert_eq!(
        Outcome::AttackerWins(vec![0]).describe(),
        "Attacker wins against [0]"
    );
    assert_eq!(
        Outcome::AttackerWins(vec![0, 1, 12]).describe(),
        "Attacker wins against [0, 1, 12]"
    );
    assert_eq!(
        Outcome::AttackerWins(vec![]).describe(),
        "Attacker wins against []"
    );
}

#[test]
fn alias_keys_assigned_in_order() {
    let mut j = short_dict();
    let first = j.set_alias(vec!['a']);
    let second = j.set_alias(vec!['b']);
    assert_ne!(first, second);
    j.remove_aliases();
    // After clearing, the first key is handed out again.
    assert_eq!(j.set_alias(vec!['c']), first);
}

#[test]
fn alias_candidates_exhausted() {
    let mut j = short_dict();
    let x_only = j.set_alias(vec!['x']);
    assert_eq!(j.valid(format!("BI{x_only}").as_str(), None, None), None);
}

#[test]
fn alias_resolves_first_matching_candidate() {
    let mut j = short_dict();
    let a_or_b = j.set_alias(vec!['a', 'b']);
    assert_eq!(
        j.valid(format!("B{a_or_b}G").as_str(), None, None),
        Some("BAG".to_string())
    );
}
