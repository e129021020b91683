use server_rust::get_user_permission;
use server_rust::permission::{ApiFlag, FnDisplay, FnFlag, RoleFn, UserPermission};

#[test]
fn fn_flag_tree() {
    let map = &get_user_permission(2);
    println!("{:?}", map)
}

#[test]
fn permissions_of_full_manager() {
    // User 2 holds the role that grants everything.
    let map = get_user_permission(2);
    assert_eq!(map.get(&0), Some(&0b1));
    assert_eq!(map.get(&1), Some(&0b110));
    assert_eq!(map.get(&2), Some(&0b11110));
    assert_eq!(map.get(&3), Some(&0b11110));
    assert_eq!(map.len(), 4);
}

#[test]
fn permissions_union_over_roles() {
    // User 1 holds the wx-user-management and the user-tag-view roles; the
    // words of both are or-ed together per position.
    let map = get_user_permission(1);
    assert_eq!(map.get(&0), Some(&0b1));
    assert_eq!(map.get(&1), Some(&0b110));
    assert_eq!(map.get(&2), Some(&0b11110));
    assert_eq!(map.get(&3), Some(&0b10));
}

#[test]
fn permissions_of_unknown_user_are_empty() {
    let map = get_user_permission(99);
    assert!(map.is_empty());
}

#[test]
fn role_fn_set_and_sets() {
    let mut rf = RoleFn {
        role_id: 7,
        seq: 1,
        value: 0b1,
    };
    rf.set(0b100);
    assert_eq!(rf.value, 0b101);
    rf.sets([0b10, 0b1000]);
    assert_eq!(rf.value, 0b1111);
    assert_eq!(rf.role_id, 7);
    assert_eq!(rf.seq, 1);
}

#[test]
fn authentication_checks_bits() {
    let p = UserPermission {
        fn_values: vec![0b1, 0b110],
    };
    assert!(p.authentication(0, 0b1));
    assert!(p.authentication(1, 0b110));
    assert!(p.authentication(1, 0b10));
    assert!(!p.authentication(1, 0b1));
}

#[test]
fn flag_constructors_keep_fields() {
    let f = FnFlag::new(101, 1, 1, 1 << 1, "wx_user:disable", "wx users", FnDisplay::Disable);
    assert_eq!(f.id, 101);
    assert_eq!(f.parent_id, 1);
    assert_eq!(f.seq, 1);
    assert_eq!(f.flag, 2);
    assert_eq!(f.key, "wx_user:disable");
    assert_eq!(f.text, "wx users");
    assert!(matches!(f.display, FnDisplay::Disable));

    let a = ApiFlag::new(10101, 101, 2, 1 << 1, "list", "wx_user/get_list");
    assert_eq!(a.id, 10101);
    assert_eq!(a.parent_id, 101);
    assert_eq!(a.seq, 2);
    assert_eq!(a.flag, 2);
    assert_eq!(a.name, "list");
    assert_eq!(a.api, "wx_user/get_list");
}
