use bounty_escrow::{find_data, has_topic};
use soroban_sdk::{Address, Env, IntoVal, Symbol, TryFromVal, Val, Vec};

type Log = Vec<(Address, Vec<Val>, Val)>;

const CONTRACT: &str = "GAAAAAAAAAAAAAAAAAAAAAAAAAAAAAAAAAAAAAAAAAAAAAAAAAAAAWHF";

fn sym(env: &Env, name: &str) -> Symbol {
    Symbol::new(env, name)
}

fn push_event(env: &Env, log: &mut Log, topics: Vec<Val>, data: Val) {
    log.push_back((Address::from_str(env, CONTRACT), topics, data));
}

fn topics_of(env: &Env, first: &Symbol) -> Vec<Val> {
    let mut t: Vec<Val> = Vec::new(env);
    t.push_back(first.to_val());
    t
}

fn lifecycle_log(env: &Env) -> Log {
    let mut log: Log = Vec::new(env);
    for (name, amount) in [("init", 2i128), ("f_lock", 10_000), ("f_rel", 10_000), ("f_ref", 3_000)] {
        let data: Val = amount.into_val(env);
        push_event(env, &mut log, topics_of(env, &sym(env, name)), data);
    }
    log
}

fn as_i128(env: &Env, p: u64) -> i128 {
    i128::try_from_val(env, &Val::from_payload(p)).unwrap()
}

#[test]
fn has_topic_finds_init_event() {
    let env = Env::default();
    let log = lifecycle_log(&env);
    assert!(has_topic(&log, "init"));
}

#[test]
fn has_topic_finds_every_lifecycle_event() {
    let env = Env::default();
    let log = lifecycle_log(&env);
    for name in ["init", "f_lock", "f_rel", "f_ref"] {
        assert!(has_topic(&log, name), "{} must be found", name);
    }
}

#[test]
fn has_topic_absent_symbol_is_false() {
    let env = Env::default();
    let log = lifecycle_log(&env);
    assert!(!has_topic(&log, "deprec"));
    assert!(!has_topic(&log, "maint"));
}

#[test]
fn has_topic_on_empty_log_is_false() {
    let env = Env::default();
    let log: Log = Vec::new(&env);
    assert!(!has_topic(&log, "init"));
    assert_eq!(find_data(&log, "init"), None);
}

#[test]
fn find_data_returns_data_of_matching_event() {
    let env = Env::default();
    let log = lifecycle_log(&env);
    let d = find_data(&log, "f_ref").expect("f_ref missing");
    assert_eq!(as_i128(&env, d), 3_000);
    let d = find_data(&log, "init").expect("init missing");
    assert_eq!(as_i128(&env, d), 2);
}

#[test]
fn find_data_takes_first_of_repeated_topic() {
    let env = Env::default();
    let mut log: Log = Vec::new(&env);
    let lock = sym(&env, "f_lock");
    push_event(&env, &mut log, topics_of(&env, &lock), 10_000i128.into_val(&env));
    push_event(&env, &mut log, topics_of(&env, &lock), 5_000i128.into_val(&env));
    let d = find_data(&log, "f_lock").expect("f_lock missing");
    assert_eq!(as_i128(&env, d), 10_000);
}

#[test]
fn find_data_absent_symbol_is_none() {
    let env = Env::default();
    let log = lifecycle_log(&env);
    assert_eq!(find_data(&log, "deprec"), None);
}

#[test]
fn event_without_topics_is_passed_over() {
    let env = Env::default();
    let mut log: Log = Vec::new(&env);
    push_event(&env, &mut log, Vec::new(&env), 1i128.into_val(&env));
    push_event(&env, &mut log, topics_of(&env, &sym(&env, "init")), 2i128.into_val(&env));
    let d = find_data(&log, "init").expect("init missing");
    assert_eq!(as_i128(&env, d), 2);
}

#[test]
fn only_the_first_topic_counts() {
    let env = Env::default();
    let mut log: Log = Vec::new(&env);
    let mut topics: Vec<Val> = Vec::new(&env);
    topics.push_back(7u32.into_val(&env));
    topics.push_back(sym(&env, "init").to_val());
    push_event(&env, &mut log, topics, 1i128.into_val(&env));
    assert!(!has_topic(&log, "init"));
    assert_eq!(find_data(&log, "init"), None);

    let mut topics: Vec<Val> = Vec::new(&env);
    topics.push_back(sym(&env, "f_lock").to_val());
    topics.push_back(sym(&env, "init").to_val());
    push_event(&env, &mut log, topics, 1i128.into_val(&env));
    assert!(!has_topic(&log, "init"));
    assert!(has_topic(&log, "f_lock"));
}

#[test]
fn long_symbols_held_as_objects_are_compared() {
    let env = Env::default();
    let mut log: Log = Vec::new(&env);
    let initialized = sym(&env, "BountyEscrowInitialized");
    let locked = sym(&env, "FundsLockedWithDeadline");
    push_event(&env, &mut log, topics_of(&env, &initialized), 1i128.into_val(&env));
    push_event(&env, &mut log, topics_of(&env, &locked), 10_000i128.into_val(&env));
    assert!(has_topic(&log, "BountyEscrowInitialized"));
    let d = find_data(&log, "FundsLockedWithDeadline").expect("object topic missing");
    assert_eq!(as_i128(&env, d), 10_000);
    assert!(!has_topic(&log, "f_rel"));
    assert!(!has_topic(&log, "BountyEscrowInitializ"));
    assert!(!has_topic(&log, "FundsLockedWithDeadlines"));
}

#[test]
fn find_data_and_has_topic_agree() {
    let env = Env::default();
    let log = lifecycle_log(&env);
    for name in ["init", "f_lock", "f_rel", "f_ref", "deprec", "maint", "other"] {
        let p = name;
        assert_eq!(find_data(&log, p).is_some(), has_topic(&log, p));
    }
}

#[test]
fn absent_short_symbol_among_others_is_false() {
    let env = Env::default();
    let mut log: Log = Vec::new(&env);
    push_event(&env, &mut log, topics_of(&env, &sym(&env, "f_lock")), 0u32.into_val(&env));
    push_event(&env, &mut log, topics_of(&env, &sym(&env, "init")), 0u32.into_val(&env));
    assert!(has_topic(&log, "init"));
    assert!(!has_topic(&log, "f_rel"));
    assert_eq!(find_data(&log, "f_rel"), None);
}

#[test]
fn short_query_matches_long_topic_only_by_characters() {
    let env = Env::default();
    let mut log: Log = Vec::new(&env);
    push_event(&env, &mut log, topics_of(&env, &sym(&env, "escrow_deprecated")), 4i128.into_val(&env));
    push_event(&env, &mut log, topics_of(&env, &sym(&env, "deprec")), 5i128.into_val(&env));
    let d = find_data(&log, "deprec").expect("deprec missing");
    assert_eq!(as_i128(&env, d), 5);
    let d = find_data(&log, "escrow_deprecated").expect("long topic missing");
    assert_eq!(as_i128(&env, d), 4);
}
