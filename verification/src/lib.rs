//! A filter-expression core — a client-supplied predicate tree validated
//! against a field catalog and rendered into one SQL-style predicate string
//! — together with a small bitmask role/permission model over sample data.
pub mod data_access;
pub mod data_access1;
pub mod permission;
pub mod wire;
pub mod text;

use std::collections::HashMap;

use permission::{Role, RoleFn, UserRole};
use vstd::prelude::*;

verus! {

/// The sample roles.
pub open spec fn spec_roles() -> Seq<Role> {
    seq![
        Role { id: 1, name: "user_management" },
        Role { id: 2, name: "wx_user_management" },
        Role { id: 3, name: "user_tag_management" },
        Role { id: 4, name: "wx_user_view" },
        Role { id: 5, name: "user_tag_view" },
    ]
}

/// The sample role assignments.
pub open spec fn spec_user_roles() -> Seq<UserRole> {
    seq![
        UserRole { user_id: 1, role_id: 2 },
        UserRole { user_id: 1, role_id: 5 },
        UserRole { user_id: 2, role_id: 1 },
        UserRole { user_id: 3, role_id: 2 },
        UserRole { user_id: 3, role_id: 3 },
    ]
}

/// The capability words each sample role grants, per sequence position.
pub open spec fn spec_role_fns() -> Seq<RoleFn> {
    seq![
        RoleFn { role_id: 1, seq: 0, value: 0b1 },
        RoleFn { role_id: 1, seq: 1, value: 0b110 },
        RoleFn { role_id: 1, seq: 2, value: 0b11110 },
        RoleFn { role_id: 1, seq: 3, value: 0b11110 },
        RoleFn { role_id: 2, seq: 0, value: 0b1 },
        RoleFn { role_id: 2, seq: 1, value: 0b10 },
        RoleFn { role_id: 2, seq: 2, value: 0b11110 },
        RoleFn { role_id: 3, seq: 0, value: 0b1 },
        RoleFn { role_id: 3, seq: 1, value: 0b100 },
        RoleFn { role_id: 3, seq: 3, value: 0b11110 },
        RoleFn { role_id: 4, seq: 0, value: 0b1 },
        RoleFn { role_id: 4, seq: 1, value: 0b10 },
        RoleFn { role_id: 4, seq: 2, value: 0b10 },
        RoleFn { role_id: 5, seq: 0, value: 0b1 },
        RoleFn { role_id: 5, seq: 1, value: 0b100 },
        RoleFn { role_id: 5, seq: 3, value: 0b10 },
    ]
}

/// The sample roles, as a vector.
fn roles_table() -> (r: Vec<Role>)
    ensures
        r@ == spec_roles(),
{
    let mut v: Vec<Role> = Vec::new();
    v.push(Role { id: 1, name: "user_management" });
    v.push(Role { id: 2, name: "wx_user_management" });
    v.push(Role { id: 3, name: "user_tag_management" });
    v.push(Role { id: 4, name: "wx_user_view" });
    v.push(Role { id: 5, name: "user_tag_view" });
    proof {
        assert(v@ =~= spec_roles());
    }
    v
}

/// The sample role assignments, as a vector.
fn user_roles_table() -> (r: Vec<UserRole>)
    ensures
        r@ == spec_user_roles(),
{
    let mut v: Vec<UserRole> = Vec::new();
    v.push(UserRole { user_id: 1, role_id: 2 });
    v.push(UserRole { user_id: 1, role_id: 5 });
    v.push(UserRole { user_id: 2, role_id: 1 });
    v.push(UserRole { user_id: 3, role_id: 2 });
    v.push(UserRole { user_id: 3, role_id: 3 });
    proof {
        assert(v@ =~= spec_user_roles());
    }
    v
}

/// The sample role capability words, as a vector.
fn role_fns_table() -> (r: Vec<RoleFn>)
    ensures
        r@ == spec_role_fns(),
{
    let mut v: Vec<RoleFn> = Vec::new();
    v.push(RoleFn { role_id: 1, seq: 0, value: 0b1 });
    v.push(RoleFn { role_id: 1, seq: 1, value: 0b110 });
    v.push(RoleFn { role_id: 1, seq: 2, value: 0b11110 });
    v.push(RoleFn { role_id: 1, seq: 3, value: 0b11110 });
    v.push(RoleFn { role_id: 2, seq: 0, value: 0b1 });
    v.push(RoleFn { role_id: 2, seq: 1, value: 0b10 });
    v.push(RoleFn { role_id: 2, seq: 2, value: 0b11110 });
    v.push(RoleFn { role_id: 3, seq: 0, value: 0b1 });
    v.push(RoleFn { role_id: 3, seq: 1, value: 0b100 });
    v.push(RoleFn { role_id: 3, seq: 3, value: 0b11110 });
    v.push(RoleFn { role_id: 4, seq: 0, value: 0b1 });
    v.push(RoleFn { role_id: 4, seq: 1, value: 0b10 });
    v.push(RoleFn { role_id: 4, seq: 2, value: 0b10 });
    v.push(RoleFn { role_id: 5, seq: 0, value: 0b1 });
    v.push(RoleFn { role_id: 5, seq: 1, value: 0b100 });
    v.push(RoleFn { role_id: 5, seq: 3, value: 0b10 });
    proof {
        assert(v@ =~= spec_role_fns());
    }
    v
}

/// Whether the roles table knows this role id.
pub open spec fn role_known(rid: u32) -> bool {
    exists|k: int| 0 <= k < spec_roles().len() && spec_roles()[k].id == rid
}

/// Whether one of the first `j` role assignments gives this role to this
/// user.
pub open spec fn user_has_role_upto(uid: u32, rid: u32, j: int) -> bool {
    exists|j2: int|
        0 <= j2 < j && spec_user_roles()[j2].user_id == uid && spec_user_roles()[j2].role_id == rid
}

/// Whether the user holds this role and the roles table knows it, looking
/// at the first `j` role assignments.
pub open spec fn role_selected_upto(uid: u32, rid: u32, j: int) -> bool {
    user_has_role_upto(uid, rid, j) && role_known(rid)
}

/// Whether the user holds this role and the roles table knows it.
pub open spec fn role_selected(uid: u32, rid: u32) -> bool {
    role_selected_upto(uid, rid, spec_user_roles().len() as int)
}

/// Whether some entry of `s` belongs to a role of the user and to the given
/// sequence position.
pub open spec fn seq_present(s: Seq<RoleFn>, uid: u32, seqno: u32) -> bool {
    exists|i: int| 0 <= i < s.len() && role_selected(uid, s[i].role_id) && s[i].seq == seqno
}

/// The bitwise union of the capability words among `s` that belong to a
/// role of the user and to the given sequence position.
pub open spec fn perm_or(s: Seq<RoleFn>, uid: u32, seqno: u32) -> u64
    decreases s.len(),
{
    if s.len() == 0 {
        0u64
    } else {
        perm_or(s.drop_last(), uid, seqno) | (if role_selected(uid, s.last().role_id)
            && s.last().seq == seqno {
            s.last().value
        } else {
            0u64
        })
    }
}

/// Where no entry matches, the union is empty.
proof fn lemma_perm_or_absent(s: Seq<RoleFn>, uid: u32, seqno: u32)
    requires
        !seq_present(s, uid, seqno),
    ensures
        perm_or(s, uid, seqno) == 0u64,
    decreases s.len(),
{
    if s.len() > 0 {
        assert(!seq_present(s.drop_last(), uid, seqno)) by {
            if seq_present(s.drop_last(), uid, seqno) {
                let i = choose|i: int|
                    0 <= i < s.drop_last().len() && role_selected(
                        uid,
                        s.drop_last()[i].role_id,
                    ) && s.drop_last()[i].seq == seqno;
                assert(s.drop_last()[i] == s[i]);
                assert(seq_present(s, uid, seqno));
            }
        }
        lemma_perm_or_absent(s.drop_last(), uid, seqno);
        assert(!(role_selected(uid, s.last().role_id) && s.last().seq == seqno)) by {
            if role_selected(uid, s.last().role_id) && s.last().seq == seqno {
                assert(seq_present(s, uid, seqno));
            }
        }
        assert(0u64 | 0u64 == 0u64) by (bit_vector);
    }
}

/// Whether the vector holds the value.
fn contains_u32(v: &Vec<u32>, x: u32) -> (r: bool)
    ensures
        r == v@.contains(x),
{
    let mut i: usize = 0;
    while i < v.len()
        invariant
            i <= v@.len(),
            forall|j: int| 0 <= j < i ==> v@[j] != x,
        decreases v@.len() - i,
    {
        if v[i] == x {
            return true;
        }
        i = i + 1;
    }
    false
}

/// Resolves a user's permissions from the sample tables: for each sequence
/// position that some capability word of one of the user's roles belongs
/// to, the map carries the bitwise union of those words.
pub fn get_user_permission(user_id: u32) -> (m: HashMap<u32, u64>)
    ensures
        forall|s: u32| #[trigger]
            m@.contains_key(s) <==> seq_present(spec_role_fns(), user_id, s),
        forall|s: u32| #[trigger]
            m@.contains_key(s) ==> m@[s] == perm_or(spec_role_fns(), user_id, s),
{
    broadcast use vstd::std_specs::hash::group_hash_axioms;

    let roles = roles_table();
    let user_roles = user_roles_table();
    let role_fns = role_fns_table();

    // The roles this user holds, among those the roles table knows.
    let mut role_ids: Vec<u32> = Vec::new();
    let mut j: usize = 0;
    while j < user_roles.len()
        invariant
            j <= spec_user_roles().len(),
            user_roles@ == spec_user_roles(),
            roles@ == spec_roles(),
            forall|rid: u32| #[trigger]
                role_ids@.contains(rid) <==> role_selected_upto(user_id, rid, j as int),
        decreases user_roles@.len() - j,
    {
        let ghost pre_ids = role_ids@;
        let ur_uid = user_roles[j].user_id;
        let ur_rid = user_roles[j].role_id;
        let mut pushed = false;
        if ur_uid == user_id {
            let mut found = false;
            let mut k: usize = 0;
            while k < roles.len()
                invariant
                    k <= spec_roles().len(),
                    roles@ == spec_roles(),
                    found == exists|k2: int|
                        0 <= k2 < k && spec_roles()[k2].id == ur_rid,
                decreases roles@.len() - k,
            {
                if roles[k].id == ur_rid {
                    found = true;
                }
                k = k + 1;
            }
            if found {
                role_ids.push(ur_rid);
                pushed = true;
            }
        }
        proof {
            assert forall|rid: u32| #[trigger]
                role_ids@.contains(rid) <==> role_selected_upto(
                    user_id,
                    rid,
                    j as int + 1,
                ) by {
                if role_ids@.contains(rid) {
                    if pushed && rid == ur_rid {
                        assert(spec_user_roles()[j as int].user_id == user_id);
                        assert(spec_user_roles()[j as int].role_id == rid);
                        assert(user_has_role_upto(user_id, rid, j as int + 1));
                    } else {
                        assert(pre_ids.contains(rid));
                        assert(role_selected_upto(user_id, rid, j as int));
                        let j2 = choose|j2: int|
                            0 <= j2 < j && spec_user_roles()[j2].user_id == user_id
                                && spec_user_roles()[j2].role_id == rid;
                        assert(user_has_role_upto(user_id, rid, j as int + 1));
                    }
                }
                if role_selected_upto(user_id, rid, j as int + 1) {
                    let j2 = choose|j2: int|
                        0 <= j2 < j + 1 && spec_user_roles()[j2].user_id == user_id
                            && spec_user_roles()[j2].role_id == rid;
                    if j2 < j {
                        assert(role_selected_upto(user_id, rid, j as int));
                        assert(pre_ids.contains(rid));
                        if pushed {
                            assert(role_ids@ == pre_ids.push(ur_rid));
                            let w = choose|w: int| 0 <= w < pre_ids.len() && pre_ids[w] == rid;
                            assert(role_ids@[w] == rid);
                        }
                        assert(role_ids@.contains(rid));
                    } else {
                        assert(rid == ur_rid && ur_uid == user_id);
                        assert(role_known(rid));
                        assert(pushed);
                        assert(role_ids@[role_ids@.len() - 1] == rid);
                        assert(role_ids@.contains(rid));
                    }
                }
            }
        }
        j = j + 1;
    }

    // Fold the capability words of the selected roles, per sequence
    // position.
    let mut m: HashMap<u32, u64> = HashMap::new();
    proof {
        assert(spec_role_fns().take(0) =~= Seq::<RoleFn>::empty());
    }
    let mut i: usize = 0;
    while i < role_fns.len()
        invariant
            i <= spec_role_fns().len(),
            role_fns@ == spec_role_fns(),
            forall|rid: u32| #[trigger] role_ids@.contains(rid) <==> role_selected(user_id, rid),
            forall|s: u32| #[trigger]
                m@.contains_key(s) <==> seq_present(
                    spec_role_fns().take(i as int),
                    user_id,
                    s,
                ),
            forall|s: u32| #[trigger]
                m@.contains_key(s) ==> m@[s] == perm_or(
                    spec_role_fns().take(i as int),
                    user_id,
                    s,
                ),
        decreases role_fns@.len() - i,
    {
        broadcast use vstd::std_specs::hash::group_hash_axioms;

        let ghost pre = m@;
        let ghost t0 = spec_role_fns().take(i as int);
        let ghost t1 = spec_role_fns().take(i as int + 1);
        let rf_role = role_fns[i].role_id;
        let rf_seq = role_fns[i].seq;
        let rf_val = role_fns[i].value;
        let sel = contains_u32(&role_ids, rf_role);
        if sel {
            let cur: u64 = match m.get(&rf_seq) {
                Some(v) => *v,
                None => 0,
            };
            proof {
                if !pre.contains_key(rf_seq) {
                    lemma_perm_or_absent(t0, user_id, rf_seq);
                }
            }
            m.insert(rf_seq, cur | rf_val);
        }
        proof {
            assert(t1.drop_last() =~= t0);
            assert(t1.last() == spec_role_fns()[i as int]);
            assert forall|s: u32| #[trigger]
                m@.contains_key(s) <==> seq_present(t1, user_id, s) by {
                if m@.contains_key(s) {
                    if sel && s == rf_seq {
                        assert(role_selected(user_id, t1.last().role_id));
                        assert(seq_present(t1, user_id, s));
                    } else {
                        assert(pre.contains_key(s));
                        let w = choose|w: int|
                            0 <= w < t0.len() && role_selected(user_id, t0[w].role_id)
                                && t0[w].seq == s;
                        assert(t1[w] == t0[w]);
                        assert(seq_present(t1, user_id, s));
                    }
                }
                if seq_present(t1, user_id, s) {
                    let w = choose|w: int|
                        0 <= w < t1.len() && role_selected(user_id, t1[w].role_id) && t1[w].seq
                            == s;
                    if w < t0.len() {
                        assert(t1[w] == t0[w]);
                        assert(seq_present(t0, user_id, s));
                        assert(pre.contains_key(s));
                        assert(m@.contains_key(s));
                    } else {
                        assert(t1[w] == t1.last());
                        assert(role_selected(user_id, rf_role) && rf_seq == s);
                        assert(role_ids@.contains(rf_role));
                        assert(sel);
                        assert(m@.contains_key(s));
                    }
                }
            }
            assert forall|s: u32| #[trigger]
                m@.contains_key(s) implies m@[s] == perm_or(t1, user_id, s) by {
                let ghost a = perm_or(t0, user_id, s);
                if s == rf_seq {
                    if sel {
                        assert(role_selected(user_id, t1.last().role_id));
                        assert(perm_or(t1, user_id, s) == a | rf_val);
                        if pre.contains_key(s) {
                            assert(m@[s] == pre[s] | rf_val);
                        } else {
                            assert(a == 0u64);
                            assert(m@[s] == 0u64 | rf_val);
                        }
                    } else {
                        assert(!role_selected(user_id, rf_role));
                        assert(perm_or(t1, user_id, s) == a | 0u64);
                        assert(a | 0u64 == a) by (bit_vector);
                        assert(m@[s] == pre[s]);
                    }
                } else {
                    assert(perm_or(t1, user_id, s) == a | 0u64);
                    assert(a | 0u64 == a) by (bit_vector);
                    if sel {
                        assert(m@[s] == pre[s]);
                    }
                }
            }
        }
        i = i + 1;
    }
    proof {
        assert(spec_role_fns().take(spec_role_fns().len() as int) =~= spec_role_fns());
    }
    m
}

} // verus!
