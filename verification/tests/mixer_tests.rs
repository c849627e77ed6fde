use rustify::mixer::Mixer;

#[test]
fn initial_volume() {
    let mixer = Mixer::new(75);
    assert_eq!(mixer.get_volume(), 75);
}

#[test]
fn clamps_initial_volume_to_100() {
    let mixer = Mixer::new(150);
    assert_eq!(mixer.get_volume(), 100);
}

#[test]
fn set_and_get_volume() {
    let mut mixer = Mixer::new(50);
    mixer.set_volume(80);
    assert_eq!(mixer.get_volume(), 80);
}

#[test]
fn clamps_set_volume_to_100() {
    let mut mixer = Mixer::new(50);
    mixer.set_volume(200);
    assert_eq!(mixer.get_volume(), 100);
}

#[test]
fn volume_edges() {
    let mut mixer = Mixer::new(0);
    assert_eq!(mixer.get_volume(), 0);
    mixer.set_volume(100);
    assert_eq!(mixer.get_volume(), 100);
    mixer.set_volume(101);
    assert_eq!(mixer.get_volume(), 100);
    mixer.set_volume(255);
    assert_eq!(mixer.get_volume(), 100);
}
