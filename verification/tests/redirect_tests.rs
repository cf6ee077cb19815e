use domain_probe::cli::parse_target_url;
use domain_probe::probe::redirect::{needs_get_fallback, Location, RedirectWalk, WalkStep};

#[test]
fn walk_follows_relative_location_then_stops() {
    let start = parse_target_url("https://a.example/").unwrap();
    let mut walk = RedirectWalk::start(start, 5);
    assert!(walk.wants_request());
    let step = walk.observe(301, Location::Text("/next".to_string())).unwrap();
    assert!(matches!(step, WalkStep::Follow));
    assert_eq!(walk.current().as_str(), "https://a.example/next");
    let step = walk.observe(200, Location::Missing).unwrap();
    assert!(matches!(step, WalkStep::Stop));
    assert!(!walk.wants_request());
    let p = walk.finish(7);
    assert_eq!(p.hops.len(), 1);
    assert_eq!(p.hops[0].status, 301);
    assert_eq!(p.hops[0].from, "https://a.example/");
    assert_eq!(p.hops[0].to, "https://a.example/next");
    assert_eq!(p.final_url, "https://a.example/next");
    assert_eq!(p.final_status, Some(200));
    assert!(!p.truncated);
    assert_eq!(p.elapsed_ms, 7);
}

#[test]
fn walk_takes_absolute_location() {
    let start = parse_target_url("http://a.example/x").unwrap();
    let mut walk = RedirectWalk::start(start, 3);
    walk.observe(308, Location::Text("https://b.example/y".to_string())).unwrap();
    assert_eq!(walk.current().as_str(), "https://b.example/y");
}

#[test]
fn hop_limit_truncates_the_chain() {
    let start = parse_target_url("https://a.example/").unwrap();
    let mut walk = RedirectWalk::start(start, 1);
    walk.observe(302, Location::Text("https://a.example/loop".to_string())).unwrap();
    assert!(!walk.wants_request());
    let p = walk.finish(0);
    assert!(p.truncated);
    assert_eq!(p.final_status, Some(302));
    assert_eq!(p.hops.len(), 1);
}

#[test]
fn zero_hop_limit_makes_no_request() {
    let start = parse_target_url("https://a.example/").unwrap();
    let walk = RedirectWalk::start(start, 0);
    assert!(!walk.wants_request());
    let p = walk.finish(0);
    assert!(p.truncated);
    assert_eq!(p.final_status, None);
    assert_eq!(p.final_url, "https://a.example/");
}

#[test]
fn missing_location_is_an_error() {
    let start = parse_target_url("https://a.example/").unwrap();
    let mut walk = RedirectWalk::start(start, 2);
    let err = walk.observe(302, Location::Missing).err().unwrap();
    assert_eq!(err, "redirect response from https://a.example/ missing Location header");
}

#[test]
fn non_text_location_is_an_error() {
    let start = parse_target_url("https://a.example/").unwrap();
    let mut walk = RedirectWalk::start(start, 2);
    let err = walk.observe(302, Location::NotText).err().unwrap();
    assert_eq!(err, "invalid redirect Location header");
}

#[test]
fn unusable_location_is_an_error() {
    let start = parse_target_url("https://a.example/").unwrap();
    let mut walk = RedirectWalk::start(start, 2);
    let err = walk.observe(302, Location::Text("http://[::1".to_string())).err().unwrap();
    assert_eq!(err, "invalid redirect target `http://[::1`");
}

#[test]
fn head_refusals_fall_back_to_get() {
    assert!(needs_get_fallback(405));
    assert!(needs_get_fallback(403));
    assert!(!needs_get_fallback(404));
    assert!(!needs_get_fallback(200));
}
