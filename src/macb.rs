//! Which of the four filesystem time roles (modified, accessed, changed,
//! born) one instant fills for a record.
use vstd::prelude::*;
use crate::timestamp::Timestamp;

verus! {

#[derive(Clone, Copy, PartialEq, Eq, Structural, Debug, Default)]
pub struct Macb {
    pub modified: bool,
    pub accessed: bool,
    pub changed: bool,
    pub created: bool,
}

impl Macb {
    /// The flags in M, A, C, B order.
    pub open spec fn flags(&self) -> Seq<bool> {
        seq![self.modified, self.accessed, self.changed, self.created]
    }

    /// Flag `i` is set exactly when candidate `i` is the reference instant.
    pub fn compute(
        mtime: Option<Timestamp>,
        atime: Option<Timestamp>,
        ctime: Option<Timestamp>,
        crtime: Option<Timestamp>,
        reference: Timestamp,
    ) -> (r: Macb)
        ensures
            r.modified == (mtime == Some(reference)),
            r.accessed == (atime == Some(reference)),
            r.changed == (ctime == Some(reference)),
            r.created == (crtime == Some(reference)),
    {
        Macb {
            modified: matches_reference(mtime, reference),
            accessed: matches_reference(atime, reference),
            changed: matches_reference(ctime, reference),
            created: matches_reference(crtime, reference),
        }
    }

    /// The compact form, e.g. `"mac."`.
    pub fn short(&self) -> (r: String)
        ensures
            r@ == macb_short(*self),
    {
        let mut s = String::new();
        s.append(if self.modified { "m" } else { "." });
        s.append(if self.accessed { "a" } else { "." });
        s.append(if self.changed { "c" } else { "." });
        s.append(if self.created { "b" } else { "." });
        proof {
            reveal_strlit("m");
            reveal_strlit("a");
            reveal_strlit("c");
            reveal_strlit("b");
            reveal_strlit(".");
        }
        assert(s@ =~= macb_short(*self));
        s
    }

    /// The verbose form: the names of the roles that are set, in M, A, C, B
    /// order.
    pub fn long(&self) -> (r: Vec<String>)
        ensures
            r@.map_values(|s: String| s@) == macb_long(*self),
    {
        let mut v: Vec<String> = Vec::new();
        assert(macb_long_upto(*self, 0) =~= Seq::empty());
        if self.modified {
            v.push("modified".to_string());
        }
        assert(v@.map_values(|s: String| s@) =~= macb_long_upto(*self, 1));
        if self.accessed {
            v.push("accessed".to_string());
        }
        assert(v@.map_values(|s: String| s@) =~= macb_long_upto(*self, 2));
        if self.changed {
            v.push("changed".to_string());
        }
        assert(v@.map_values(|s: String| s@) =~= macb_long_upto(*self, 3));
        if self.created {
            v.push("born".to_string());
        }
        assert(v@.map_values(|s: String| s@) =~= macb_long_upto(*self, 4));
        v
    }
}

fn matches_reference(t: Option<Timestamp>, reference: Timestamp) -> (r: bool)
    ensures
        r == (t == Some(reference)),
{
    match t {
        Some(t) => t.ts == reference.ts,
        None => false,
    }
}

/// The name of role `i` in M, A, C, B order.
pub open spec fn role_name(i: int) -> Seq<char> {
    if i == 0 {
        "modified"@
    } else if i == 1 {
        "accessed"@
    } else if i == 2 {
        "changed"@
    } else {
        "born"@
    }
}

/// The letter of role `i` in M, A, C, B order.
pub open spec fn role_letter(i: int) -> char {
    if i == 0 {
        'm'
    } else if i == 1 {
        'a'
    } else if i == 2 {
        'c'
    } else {
        'b'
    }
}

/// One character per role: its letter where set, `.` where not.
pub open spec fn macb_short(f: Macb) -> Seq<char> {
    Seq::new(4, |i: int| if f.flags()[i] { role_letter(i) } else { '.' })
}

/// The names of the set roles among the first `n`, in order.
pub open spec fn macb_long_upto(f: Macb, n: int) -> Seq<Seq<char>>
    decreases n,
{
    if n <= 0 {
        Seq::empty()
    } else if f.flags()[n - 1] {
        macb_long_upto(f, n - 1).push(role_name(n - 1))
    } else {
        macb_long_upto(f, n - 1)
    }
}

pub open spec fn macb_long(f: Macb) -> Seq<Seq<char>> {
    macb_long_upto(f, 4)
}

proof fn lemma_role_names_distinct()
    ensures
        forall|i: int, j: int| 0 <= i < 4 && 0 <= j < 4 && i != j ==> role_name(i) != role_name(j),
{
    reveal_strlit("modified");
    reveal_strlit("accessed");
    reveal_strlit("changed");
    reveal_strlit("born");
    assert("modified"@[0] != "accessed"@[0]);
    assert("modified"@[0] != "changed"@[0]);
    assert("modified"@[0] != "born"@[0]);
    assert("accessed"@[0] != "changed"@[0]);
    assert("accessed"@[0] != "born"@[0]);
    assert("changed"@[0] != "born"@[0]);
}

proof fn lemma_long_upto_names(f: Macb, n: int, i: int)
    requires
        0 <= n <= 4,
        0 <= i < 4,
    ensures
        macb_long_upto(f, n).contains(role_name(i)) <==> (i < n && f.flags()[i]),
    decreases n,
{
    lemma_role_names_distinct();
    if n > 0 {
        lemma_long_upto_names(f, n - 1, i);
        let prev = macb_long_upto(f, n - 1);
        if f.flags()[n - 1] {
            let cur = prev.push(role_name(n - 1));
            assert(cur[cur.len() - 1] == role_name(n - 1));
            if prev.contains(role_name(i)) {
                let k = choose|k: int| 0 <= k < prev.len() && prev[k] == role_name(i);
                assert(cur[k] == role_name(i));
            }
            if cur.contains(role_name(i)) {
                let k = choose|k: int| 0 <= k < cur.len() && cur[k] == role_name(i);
                if k < prev.len() {
                    assert(prev[k] == role_name(i));
                }
            }
        }
    }
}

/// The compact and the verbose encodings agree: a role's letter shows in the
/// compact form exactly when its name is in the verbose one.
pub proof fn lemma_macb_encodings_agree(f: Macb)
    ensures
        macb_short(f).len() == 4,
        forall|i: int|
            0 <= i < 4 ==> ((#[trigger] macb_short(f)[i] != '.') <==> macb_long(f).contains(
                role_name(i),
            )),
{
    assert forall|i: int| 0 <= i < 4 implies ((#[trigger] macb_short(f)[i] != '.')
        <==> macb_long(f).contains(role_name(i))) by {
        lemma_long_upto_names(f, 4, i);
    }
}

} // verus!
