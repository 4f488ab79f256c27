use loot_table_selector::parse::parse;
use loot_table_selector::select::SelectionError;
use loot_table_selector::select::select;
use loot_table_selector::table::LootTable;

fn lines(input: &[&str]) -> Vec<String> {
    input.iter().map(|s| s.to_string()).collect()
}

fn weighted(items: &[(&str, u64)]) -> LootTable {
    LootTable::new_weighted(items.iter().map(|(n, w)| (n.to_string(), *w)).collect())
}

#[test]
fn empty_table_yields_empty_table_error() {
    let t = parse(&lines(&["# comment", "Uniform"])).unwrap();
    assert_eq!(t.entries.len(), 0);
    assert_eq!(select(&t).unwrap_err(), SelectionError::EmptyTable);
}

#[test]
fn built_empty_table_yields_empty_table_error() {
    let t = LootTable::new_uniform(Vec::new());
    assert_eq!(select(&t).unwrap_err(), SelectionError::EmptyTable);
}

#[test]
fn all_zero_weights_yield_error_not_a_crash() {
    let t = parse(&lines(&["Weighted", "sword!!0", "shield!!0"])).unwrap();
    assert_eq!(select(&t).unwrap_err(), SelectionError::AllZeroWeights);
}

#[test]
fn overflowing_weight_sum_yields_error() {
    let t = weighted(&[("a", u64::MAX), ("b", 1)]);
    assert_eq!(select(&t).unwrap_err(), SelectionError::WeightOverflow);
}

#[test]
fn weight_sum_at_the_limit_still_selects() {
    let t = weighted(&[("a", u64::MAX - 1), ("b", 1)]);
    assert!(select(&t).is_ok());
}

#[test]
fn uniform_selection_returns_a_listed_name() {
    let t = parse(&lines(&["Uniform", "sword", "shield", "potion"])).unwrap();
    let name = select(&t).unwrap();
    assert!(name == "sword" || name == "shield" || name == "potion");
}

#[test]
fn uniform_singleton_always_returns_it() {
    let t = parse(&lines(&["Uniform", "sword"])).unwrap();
    for _ in 0..100 {
        assert_eq!(select(&t).unwrap(), "sword");
    }
}

#[test]
fn zero_weight_entries_are_never_selected() {
    let t = parse(&lines(&["Weighted", "dust!!0", "gold!!3", "rock!!0"])).unwrap();
    for _ in 0..1000 {
        assert_eq!(select(&t).unwrap(), "gold");
    }
}

#[test]
fn weighted_selection_returns_a_listed_name() {
    let t = weighted(&[("sword", 10), ("shield", 5), ("potion", 1)]);
    for _ in 0..100 {
        let name = select(&t).unwrap();
        assert!(name == "sword" || name == "shield" || name == "potion");
    }
}

#[test]
fn selection_leaves_the_table_reusable() {
    let t = weighted(&[("a", 1)]);
    for _ in 0..10 {
        assert_eq!(select(&t).unwrap(), "a");
    }
    assert_eq!(t.entries.len(), 1);
}

#[test]
fn equal_weights_round_trip_within_tolerance() {
    let t = weighted(&[("a", 1), ("b", 1), ("c", 1)]);
    let mut counts = [0usize; 3];
    for _ in 0..10000 {
        match select(&t).unwrap().as_str() {
            "a" => counts[0] += 1,
            "b" => counts[1] += 1,
            "c" => counts[2] += 1,
            other => panic!("selected a name absent from the entries: {}", other),
        }
    }
    for &c in counts.iter() {
        assert!(3000 <= c && c <= 3700, "frequency out of tolerance: {}", c);
    }
}

#[test]
fn uniform_frequencies_converge() {
    let t = parse(&lines(&["Uniform", "w", "x", "y", "z"])).unwrap();
    let trials = 20000usize;
    let mut counts = [0usize; 4];
    for _ in 0..trials {
        match select(&t).unwrap().as_str() {
            "w" => counts[0] += 1,
            "x" => counts[1] += 1,
            "y" => counts[2] += 1,
            "z" => counts[3] += 1,
            other => panic!("selected a name absent from the entries: {}", other),
        }
    }
    // Expected 5000 each; the band is far wider than sampling noise.
    for &c in counts.iter() {
        assert!(4500 <= c && c <= 5500, "frequency out of tolerance: {}", c);
    }
}

#[test]
fn weighted_frequencies_converge() {
    let t = weighted(&[("common", 7), ("uncommon", 2), ("rare", 1)]);
    let trials = 20000usize;
    let mut counts = [0usize; 3];
    for _ in 0..trials {
        match select(&t).unwrap().as_str() {
            "common" => counts[0] += 1,
            "uncommon" => counts[1] += 1,
            "rare" => counts[2] += 1,
            other => panic!("selected a name absent from the entries: {}", other),
        }
    }
    // Expected 14000 / 4000 / 2000; bands far wider than sampling noise.
    assert!(13400 <= counts[0] && counts[0] <= 14600, "common: {}", counts[0]);
    assert!(3500 <= counts[1] && counts[1] <= 4500, "uncommon: {}", counts[1]);
    assert!(1600 <= counts[2] && counts[2] <= 2400, "rare: {}", counts[2]);
}

#[test]
fn parse_then_select_stays_within_the_entries() {
    let t = parse(&lines(&["Weighted", "sword!!3", "dust!!0", "shield!!2"])).unwrap();
    for _ in 0..1000 {
        let name = select(&t).unwrap();
        assert!(name == "sword" || name == "shield");
    }
}

#[test]
fn builders_match_parsed_tables() {
    let built = LootTable::new_uniform(vec!["sword".to_string(), "shield".to_string()]);
    let parsed = parse(&lines(&["Uniform", "sword", "shield"])).unwrap();
    assert_eq!(built.mode, parsed.mode);
    assert_eq!(built.entries.len(), parsed.entries.len());
}
