use std::collections::HashMap;

use metri_engine::hierarchy::{HierarchyWalk, ParentLookup, WalkStep};

/// Runs the walk against a map from group to parent ("" for none).
fn walk(entity: &str, parent: &str, parents: &HashMap<&str, &str>) -> (Result<(), String>, usize) {
    let (mut w, mut step) = HierarchyWalk::start(entity, parent);
    let mut reads = 0;
    loop {
        match step {
            WalkStep::Done(r) => return (r.map_err(|e| e.message), reads),
            WalkStep::Fetch(id) => {
                reads += 1;
                let lookup = match parents.get(id.as_str()) {
                    Some(p) => ParentLookup::Found(p.to_string()),
                    None => ParentLookup::Missing,
                };
                step = w.step(lookup);
            }
        }
    }
}

#[test]
fn no_parent_no_check() {
    assert_eq!(walk("g1", "", &HashMap::new()), (Ok(()), 0));
}

#[test]
fn own_parent_is_refused_at_once() {
    let (r, reads) = walk("g1", "g1", &HashMap::new());
    assert_eq!(r.unwrap_err(), "Circular dependency detected: a group cannot be its own parent");
    assert_eq!(reads, 0);
}

#[test]
fn a_chain_back_to_the_group_is_a_cycle() {
    let parents = HashMap::from([("g2", "g3"), ("g3", "g1")]);
    let (r, _) = walk("g1", "g2", &parents);
    assert_eq!(r.unwrap_err(), "Circular dependency detected in user groups");
}

#[test]
fn a_chain_to_the_root_is_fine() {
    let parents = HashMap::from([("g2", "g3"), ("g3", "")]);
    assert_eq!(walk("g1", "g2", &parents), (Ok(()), 2));
}

#[test]
fn missing_groups_and_failed_reads_end_the_walk() {
    assert_eq!(walk("g1", "ghost", &HashMap::new()), (Ok(()), 1));
    let (mut w, step) = HierarchyWalk::start("g1", "g2");
    assert!(matches!(step, WalkStep::Fetch(ref id) if id == "g2"));
    assert!(matches!(w.step(ParentLookup::Failed), WalkStep::Done(Ok(()))));
}

#[test]
fn the_walk_stops_after_ten_levels() {
    let names: Vec<String> = (0..30).map(|i| format!("n{i}")).collect();
    let mut parents = HashMap::new();
    for i in 0..29 {
        parents.insert(names[i].as_str(), names[i + 1].as_str());
    }
    let (r, reads) = walk("g", "n0", &parents);
    assert!(r.is_ok());
    assert_eq!(reads, 10);
}

#[test]
fn a_cycle_above_the_group_is_caught() {
    let parents = HashMap::from([("a", "b"), ("b", "a")]);
    let (r, reads) = walk("g", "a", &parents);
    assert!(r.is_err());
    assert_eq!(reads, 2);
}
