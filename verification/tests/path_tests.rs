use shipyard_app::Path;
use shipyard_app::TypeKey;

#[test]
fn path_tracks_membership_and_order() {
    let mut p = Path::new();
    let a = TypeKey::new(1);
    let b = TypeKey::new(2);
    assert_eq!(p.len(), 0);
    assert!(!p.contains(a));
    p.push(a);
    p.push(b);
    assert!(p.contains(a));
    assert!(p.contains(b));
    assert!(!p.contains(TypeKey::new(3)));
    assert_eq!(p.snapshot(), vec![a, b]);
    p.pop();
    assert!(!p.contains(b));
    assert!(p.contains(a));
    assert_eq!(p.len(), 1);
}
