//! A bitmask-based role/permission model: each functional capability is one
//! bit of a 64-bit word at some sequence position, roles grant words of
//! bits, and a user's permissions are the bitwise union of the words of
//! their roles.
use vstd::prelude::*;

verus! {

/// One functional capability of the UI tree: a bit at a sequence position,
/// with its place in the tree and its display state.
#[derive(Debug, Clone)]
pub struct FnFlag {
    pub id: u32,
    /// The id of the capability one level up.
    pub parent_id: u32,
    /// Which permission word the flag bit lives in.
    pub seq: u32,
    /// The flag bit.
    pub flag: u64,
    pub key: &'static str,
    /// The text a page shows for this capability.
    pub text: &'static str,
    pub display: FnDisplay,
}

impl FnFlag {
    /// Builds one capability entry.
    pub fn new(
        id: u32,
        parent_id: u32,
        seq: u32,
        flag: u64,
        key: &'static str,
        text: &'static str,
        display: FnDisplay,
    ) -> (r: Self)
        ensures
            r.id == id,
            r.parent_id == parent_id,
            r.seq == seq,
            r.flag == flag,
            r.key == key,
            r.text == text,
            r.display == display,
    {
        Self { id, seq, flag, parent_id, key, text, display }
    }
}

/// How a capability is presented when the user lacks it.
#[derive(Debug, Clone, Copy, PartialEq, Eq, Structural)]
pub enum FnDisplay {
    Show,
    Disable,
}

/// One backend interface guarded by a capability bit.
#[derive(Debug, Clone)]
pub struct ApiFlag {
    pub id: u32,
    /// The id of the [`FnFlag`] node this interface belongs to.
    pub parent_id: u32,
    /// Which permission word the flag bit lives in.
    pub seq: u32,
    /// The flag bit.
    pub flag: u64,
    /// A readable name for the permission.
    pub name: &'static str,
    /// The backend interface the permission guards.
    pub api: &'static str,
}

impl ApiFlag {
    /// Builds one interface entry.
    pub fn new(
        id: u32,
        parent_id: u32,
        seq: u32,
        flag: u64,
        name: &'static str,
        api: &'static str,
    ) -> (r: Self)
        ensures
            r.id == id,
            r.parent_id == parent_id,
            r.seq == seq,
            r.flag == flag,
            r.name == name,
            r.api == api,
    {
        Self { id, parent_id, seq, flag, api, name }
    }
}

/// A role a user can hold.
#[derive(Debug, Clone)]
pub struct Role {
    pub id: u32,
    pub name: &'static str,
}

/// The capability word a role grants at one sequence position.
#[derive(Debug, Clone, Default)]
pub struct RoleFn {
    pub role_id: u32,
    pub seq: u32,
    /// The 64-bit word of capabilities the role grants here.
    pub value: u64,
}

/// The bitwise union of a sequence of capability words.
pub open spec fn or_all(s: Seq<u64>) -> u64
    decreases s.len(),
{
    if s.len() == 0 {
        0u64
    } else {
        or_all(s.drop_last()) | s.last()
    }
}

impl RoleFn {
    /// Grants the capabilities of `value` on top of what is granted.
    pub fn set(&mut self, value: u64)
        ensures
            final(self).role_id == old(self).role_id,
            final(self).seq == old(self).seq,
            final(self).value == old(self).value | value,
    {
        self.value = self.value | value;
    }

    /// Grants the capabilities of every word of `values`.
    pub fn sets<const N: usize>(&mut self, values: [u64; N])
        ensures
            final(self).role_id == old(self).role_id,
            final(self).seq == old(self).seq,
            final(self).value == old(self).value | or_all(values@),
    {
        proof {
            assert(values@.take(0) =~= Seq::<u64>::empty());
            let v0 = self.value;
            assert(v0 | 0u64 == v0) by (bit_vector);
        }
        let mut i: usize = 0;
        while i < N
            invariant
                i <= values@.len(),
                self.role_id == old(self).role_id,
                self.seq == old(self).seq,
                self.value == old(self).value | or_all(values@.take(i as int)),
            decreases values@.len() - i,
        {
            let ghost a = old(self).value;
            let ghost b = or_all(values@.take(i as int));
            let ghost c = values@[i as int];
            self.value = self.value | values[i];
            proof {
                assert(values@.take(i as int + 1).drop_last() =~= values@.take(i as int));
                assert(values@.take(i as int + 1).last() == values@[i as int]);
                assert((a | b) | c == a | (b | c)) by (bit_vector);
            }
            i = i + 1;
        }
        proof {
            assert(values@.take(values@.len() as int) =~= values@);
        }
    }
}

/// A user.
#[derive(Debug, Clone)]
pub struct User {
    pub id: u32,
    pub name: &'static str,
}

/// Gives one role to one user.
#[derive(Debug, Clone)]
pub struct UserRole {
    pub user_id: u32,
    pub role_id: u32,
}

/// A user's resolved permissions: one capability word per sequence
/// position.
#[derive(Debug, Clone)]
pub struct UserPermission {
    pub fn_values: Vec<u64>,
}

impl UserPermission {
    /// Whether the user holds every bit of `fn_flag` at position `seq`.
    pub fn authentication(&self, seq: u32, fn_flag: u64) -> (r: bool)
        requires
            (seq as int) < self.fn_values@.len(),
        ensures
            r == (self.fn_values@[seq as int] & fn_flag == fn_flag),
    {
        self.fn_values[seq as usize] & fn_flag == fn_flag
    }
}

} // verus!
