use torpedo_duel::torpedo::{is_armed, surviving_torps, FUSE_MS};

#[test]
fn fuse_arms_after_five_hundred_ms() {
    assert_eq!(FUSE_MS, 500);
    assert!(!is_armed(0));
    assert!(!is_armed(500));
    assert!(is_armed(501));
    assert!(is_armed(u128::MAX));
}

#[test]
fn torps_kept_all_or_none() {
    let torps = vec![1.5f32, -0.25, 0.75];
    assert_eq!(surviving_torps(&torps, true), torps);
    assert_eq!(surviving_torps(&torps, false), Vec::<f32>::new());
    let none: Vec<u8> = vec![];
    assert_eq!(surviving_torps(&none, true), none);
}
