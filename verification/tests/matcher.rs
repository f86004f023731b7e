use eda_diff_core::diff::matcher::{match_items, match_keys, MatchKey, MatchedIndex};
use eda_diff_core::diff::MatchMethod;

fn key(primary: &str, fallback: Option<&str>) -> MatchKey {
    MatchKey { primary: primary.to_owned(), fallback: fallback.map(str::to_owned) }
}

fn pair(before: usize, after: usize, method: MatchMethod) -> MatchedIndex {
    MatchedIndex { before: Some(before), after: Some(after), method: Some(method) }
}

#[test]
fn pairs_by_identifier_then_by_unique_fallback() {
    let before = vec![key("a", Some("R1")), key("b", Some("R2")), key("c", Some("R3"))];
    let after = vec![key("x", Some("R3")), key("a", Some("R9")), key("y", Some("R4"))];
    let matches = match_keys(&before, &after, MatchMethod::Reference);
    assert_eq!(
        matches,
        vec![
            pair(0, 1, MatchMethod::ObjectId),
            pair(2, 0, MatchMethod::Reference),
            MatchedIndex { before: Some(1), after: None, method: None },
            MatchedIndex { before: None, after: Some(2), method: None },
        ]
    );
}

#[test]
fn every_object_is_listed_exactly_once() {
    let before = vec![key("a", None), key("a", Some("N")), key("b", Some("N")), key("c", None)];
    let after = vec![key("a", None), key("a", Some("N")), key("d", Some("M"))];
    let matches = match_keys(&before, &after, MatchMethod::Name);
    for i in 0..before.len() {
        assert_eq!(matches.iter().filter(|m| m.before == Some(i)).count(), 1);
    }
    for j in 0..after.len() {
        assert_eq!(matches.iter().filter(|m| m.after == Some(j)).count(), 1);
    }
    // The first earlier "a" takes the last later "a".
    assert_eq!(matches[0], pair(0, 1, MatchMethod::ObjectId));
}

#[test]
fn identical_lists_pair_each_object_with_itself() {
    let keys = vec![key("p", Some("R1")), key("q", None), key("r", Some("R1"))];
    let matches = match_keys(&keys, &keys, MatchMethod::Reference);
    assert_eq!(
        matches,
        vec![
            pair(0, 0, MatchMethod::ObjectId),
            pair(1, 1, MatchMethod::ObjectId),
            pair(2, 2, MatchMethod::ObjectId),
        ]
    );
}

#[test]
fn duplicate_fallback_keys_leave_objects_unpaired() {
    let before = vec![key("o1", Some("DUP")), key("o2", Some("DUP"))];
    let after = vec![key("n1", Some("DUP"))];
    let matches = match_keys(&before, &after, MatchMethod::Name);
    assert!(matches.iter().all(|m| m.method.is_none()));
    assert_eq!(matches.len(), 3);
}

#[test]
fn empty_revisions_give_an_empty_pairing() {
    let matches = match_keys(&[], &[], MatchMethod::Name);
    assert!(matches.is_empty());
}

struct Part {
    id: &'static str,
    reference: &'static str,
}

#[test]
fn pairs_items_through_key_functions() {
    let before = vec![Part { id: "1", reference: "R1" }, Part { id: "2", reference: "R2" }];
    let after = vec![Part { id: "9", reference: "R2" }, Part { id: "1", reference: "R7" }];
    let matches = match_items(
        &before,
        &after,
        |part: &Part| part.id.to_owned(),
        |part: &Part| Some(part.reference.to_owned()),
        MatchMethod::Reference,
    );
    assert_eq!(
        matches,
        vec![pair(0, 1, MatchMethod::ObjectId), pair(1, 0, MatchMethod::Reference)]
    );
}

#[test]
fn swapping_the_revisions_swaps_the_pairs() {
    let before = vec![key("a", Some("R1")), key("b", Some("R2")), key("c", Some("R3"))];
    let after = vec![key("x", Some("R3")), key("a", Some("R9")), key("y", Some("R4"))];
    let forward = match_keys(&before, &after, MatchMethod::Reference);
    let backward = match_keys(&after, &before, MatchMethod::Reference);
    let pairs = |ms: &Vec<MatchedIndex>, swap: bool| {
        let mut v: Vec<(usize, usize, MatchMethod)> = ms
            .iter()
            .filter_map(|m| match (m.before, m.after, m.method) {
                (Some(i), Some(j), Some(k)) => Some(if swap { (j, i, k) } else { (i, j, k) }),
                _ => None,
            })
            .collect();
        v.sort_by_key(|p| (p.0, p.1));
        v
    };
    assert_eq!(pairs(&forward, false), pairs(&backward, true));
    assert_eq!(pairs(&forward, false).len(), 2);
}
