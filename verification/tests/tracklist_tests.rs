use rustify::tracklist::Tracklist;
use rustify::types::RepeatMode;

#[test]
fn new_tracklist_is_empty() {
    let tl = Tracklist::new();
    assert!(tl.is_empty());
    assert_eq!(tl.len(), 0);
    assert!(tl.current().is_none());
    assert!(tl.index().is_none());
}

#[test]
fn add_does_not_set_current() {
    let mut tl = Tracklist::new();
    tl.add("file:///a.mp3".into());
    assert_eq!(tl.len(), 1);
    assert!(tl.current().is_none());
}

#[test]
fn load_sets_current_to_first() {
    let mut tl = Tracklist::new();
    tl.load(vec!["file:///a.mp3".into(), "file:///b.mp3".into()]);
    assert_eq!(tl.len(), 2);
    assert_eq!(tl.index(), Some(0));
    assert_eq!(tl.current(), Some("file:///a.mp3"));
}

#[test]
fn load_empty_sets_none() {
    let mut tl = Tracklist::new();
    tl.load(vec![]);
    assert!(tl.is_empty());
    assert!(tl.current().is_none());
}

#[test]
fn load_replaces_existing() {
    let mut tl = Tracklist::new();
    tl.load(vec!["file:///a.mp3".into()]);
    tl.load(vec!["file:///b.mp3".into(), "file:///c.mp3".into()]);
    assert_eq!(tl.len(), 2);
    assert_eq!(tl.current(), Some("file:///b.mp3"));
}

#[test]
fn clear_resets_everything() {
    let mut tl = Tracklist::new();
    tl.load(vec!["file:///a.mp3".into()]);
    tl.clear();
    assert!(tl.is_empty());
    assert!(tl.current().is_none());
    assert!(tl.index().is_none());
}

#[test]
fn next_advances() {
    let mut tl = Tracklist::new();
    tl.load(vec![
        "file:///a.mp3".into(),
        "file:///b.mp3".into(),
        "file:///c.mp3".into(),
    ]);
    assert_eq!(tl.next(), Some("file:///b.mp3"));
    assert_eq!(tl.index(), Some(1));
    assert_eq!(tl.next(), Some("file:///c.mp3"));
    assert_eq!(tl.index(), Some(2));
}

#[test]
fn next_at_end_returns_none() {
    let mut tl = Tracklist::new();
    tl.load(vec!["file:///a.mp3".into()]);
    assert_eq!(tl.next(), None);
    assert_eq!(tl.index(), Some(0));
}

#[test]
fn next_on_empty_returns_none() {
    let mut tl = Tracklist::new();
    assert_eq!(tl.next(), None);
}

#[test]
fn previous_goes_back() {
    let mut tl = Tracklist::new();
    tl.load(vec![
        "file:///a.mp3".into(),
        "file:///b.mp3".into(),
        "file:///c.mp3".into(),
    ]);
    tl.next();
    tl.next();
    assert_eq!(tl.previous(), Some("file:///b.mp3"));
    assert_eq!(tl.index(), Some(1));
    assert_eq!(tl.previous(), Some("file:///a.mp3"));
    assert_eq!(tl.index(), Some(0));
}

#[test]
fn previous_at_start_returns_none() {
    let mut tl = Tracklist::new();
    tl.load(vec!["file:///a.mp3".into()]);
    assert_eq!(tl.previous(), None);
    assert_eq!(tl.index(), Some(0));
}

#[test]
fn previous_on_empty_returns_none() {
    let mut tl = Tracklist::new();
    assert_eq!(tl.previous(), None);
}

#[test]
fn repeat_all_wraps_at_end() {
    let mut tl = Tracklist::new();
    tl.load(vec!["file:///a.mp3".into(), "file:///b.mp3".into()]);
    tl.set_repeat(RepeatMode::All);
    tl.next();
    assert_eq!(tl.next(), Some("file:///a.mp3"));
    assert_eq!(tl.index(), Some(0));
}

#[test]
fn repeat_one_returns_same_track() {
    let mut tl = Tracklist::new();
    tl.load(vec!["file:///a.mp3".into(), "file:///b.mp3".into()]);
    tl.set_repeat(RepeatMode::One);
    assert_eq!(tl.next(), Some("file:///a.mp3"));
    assert_eq!(tl.next(), Some("file:///a.mp3"));
}

#[test]
fn repeat_off_returns_none_at_end() {
    let mut tl = Tracklist::new();
    tl.load(vec!["file:///a.mp3".into()]);
    tl.set_repeat(RepeatMode::Off);
    assert_eq!(tl.next(), None);
}

#[test]
fn repeat_mode_cycle() {
    assert_eq!(RepeatMode::Off.cycle(), RepeatMode::All);
    assert_eq!(RepeatMode::All.cycle(), RepeatMode::One);
    assert_eq!(RepeatMode::One.cycle(), RepeatMode::Off);
}

#[test]
fn shuffle_produces_permutation() {
    let mut tl = Tracklist::new();
    tl.load(vec![
        "file:///a.mp3".into(),
        "file:///b.mp3".into(),
        "file:///c.mp3".into(),
        "file:///d.mp3".into(),
        "file:///e.mp3".into(),
    ]);
    tl.set_shuffle(true);
    let mut visited = vec![tl.current().unwrap().to_string()];
    for _ in 0..4 {
        visited.push(tl.next().unwrap().to_string());
    }
    visited.sort();
    assert_eq!(
        visited,
        vec![
            "file:///a.mp3",
            "file:///b.mp3",
            "file:///c.mp3",
            "file:///d.mp3",
            "file:///e.mp3",
        ]
    );
}

#[test]
fn shuffle_off_restores_order() {
    let mut tl = Tracklist::new();
    tl.load(vec![
        "file:///a.mp3".into(),
        "file:///b.mp3".into(),
        "file:///c.mp3".into(),
    ]);
    tl.set_shuffle(true);
    tl.next();
    let current_uri = tl.current().unwrap().to_string();
    tl.set_shuffle(false);
    assert_eq!(tl.current().unwrap(), current_uri);
}

#[test]
fn shuffle_previous_walks_backward() {
    let mut tl = Tracklist::new();
    tl.load(vec![
        "file:///a.mp3".into(),
        "file:///b.mp3".into(),
        "file:///c.mp3".into(),
    ]);
    tl.set_shuffle(true);
    let first = tl.current().unwrap().to_string();
    tl.next();
    let back = tl.previous().unwrap().to_string();
    assert_eq!(back, first);
}

#[test]
fn shuffle_starts_with_current_track() {
    let mut tl = Tracklist::new();
    tl.load(vec!["file:///a.mp3".into(), "file:///b.mp3".into(), "file:///c.mp3".into()]);
    tl.next();
    tl.set_shuffle(true);
    assert_eq!(tl.current(), Some("file:///b.mp3"));
    assert!(tl.get_shuffle());
}

#[test]
fn shuffle_repeat_all_wraps_with_new_order() {
    let mut tl = Tracklist::new();
    tl.load(vec!["file:///a.mp3".into(), "file:///b.mp3".into(), "file:///c.mp3".into()]);
    tl.set_shuffle(true);
    tl.set_repeat(RepeatMode::All);
    tl.next();
    tl.next();
    let last = tl.current().unwrap().to_string();
    assert_eq!(tl.next(), Some(last.as_str()));
    assert_eq!(tl.get_repeat(), RepeatMode::All);
}

#[test]
fn default_tracklist_is_empty() {
    let tl = Tracklist::default();
    assert!(tl.is_empty());
    assert!(!tl.get_shuffle());
    assert_eq!(tl.get_repeat(), RepeatMode::Off);
}

#[test]
fn shuffle_back_then_forward_walks_the_same_order() {
    let uris: Vec<String> = (0..6).map(|i| format!("file:///m/{}.mp3", i)).collect();
    let mut tl = Tracklist::new();
    tl.load(uris);
    tl.set_shuffle(true);
    let mut forward = Vec::new();
    for _ in 0..5 {
        forward.push(tl.next().map(|s| s.to_string()));
    }
    assert!(tl.next().is_none());
    for _ in 0..5 {
        assert!(tl.previous().is_some());
    }
    assert!(tl.previous().is_none());
    let mut again = Vec::new();
    for _ in 0..5 {
        again.push(tl.next().map(|s| s.to_string()));
    }
    assert_eq!(forward, again);
}
