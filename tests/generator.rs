use debugoff::Rand;

#[test]
fn generator_known_outputs() {
    let mut r = Rand::new(0);
    let got: Vec<u32> = (0..5).map(|_| r.rand()).collect();
    assert_eq!(got, vec![3701687786, 458299110, 2500872618, 3633119408, 516391518]);
}

#[test]
fn generator_seed_changes_output() {
    let mut r = Rand::new(42);
    assert_eq!(r.rand(), 3701609616);
    assert_eq!(r.rand(), 458299110);
}

#[test]
fn generator_same_seed_same_sequence() {
    let mut a = Rand::new(0xdead_beef);
    let mut b = Rand::new(0xdead_beef);
    let xs: Vec<u32> = (0..64).map(|_| a.rand()).collect();
    let ys: Vec<u32> = (0..64).map(|_| b.rand()).collect();
    assert_eq!(xs, ys);
}
