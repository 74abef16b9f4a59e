use aio_markdown::stop::{StopManager, StopToken, StopTokenState};

fn stop_manager(stops: &[&str]) -> StopManager {
    let mut x = StopManager::new();
    for s in stops {
        x.add_stop_from_string(s);
    }
    x
}

#[test]
fn stops() {
    let mut manager = stop_manager(&["Bonjour", "bonjour", "salut"]);
    assert!(manager.check("Bonjour"));
    assert!(manager.check("bonjour"));
    assert!(manager.check("salut"));
    assert!(!manager.check("Au revoir"));
    manager.reset();
    assert!(!manager.check("aloa aloa"));
    manager.reset();
    assert!(!manager.check("aloa"));
    assert!(manager.check("bonjour"));
    manager.reset();
    assert!(!manager.check("aloa bon"));
    assert!(manager.check("jour"));
    manager.reset();
    assert!(!manager.check("aloa bon"));
    assert!(!manager.check("jo"));
    assert!(manager.check("ur"));
    manager.reset();
    for c in "aloa au revoir salu".chars() {
        assert!(!manager.check(&c.to_string()));
    }
    assert!(manager.check(&'t'.to_string()));
}

#[test]
fn stop_match_restarts_after_a_mismatch() {
    let mut manager = stop_manager(&["ab"]);
    // The mismatching character is not tried again as a first character.
    assert!(!manager.check("aab"));
    manager.reset();
    assert!(manager.check("xab"));
}

#[test]
fn stop_found_resets_every_match() {
    let mut manager = stop_manager(&["abc", "xy"]);
    assert!(!manager.check("ab"));
    assert!(manager.check("xy"));
    // "abc" was reset by the hit on "xy".
    assert!(!manager.check("c"));
}

#[test]
fn stop_inspector_reports_progress() {
    let token = StopToken::new("end".to_string());
    let mut inspector = token.inspect();
    assert_eq!(inspector.check("en"), StopTokenState::InProgress);
    assert_eq!(inspector.check("d"), StopTokenState::Found);
    inspector.reset();
    assert_eq!(inspector.check("xend"), StopTokenState::Found);
}

#[test]
fn stop_manager_without_stops_never_stops() {
    let mut manager = StopManager::new();
    assert!(!manager.check("anything"));
    let mut manager = StopManager::new();
    manager.add_stop(StopToken::new("é!".to_string()));
    assert!(manager.check("café!"));
}
