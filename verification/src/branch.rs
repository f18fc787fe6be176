//! Branches and the names of their references: the primary reference of a
//! branch and its three auxiliary references under a namespace of their own.

use vstd::prelude::*;

verus! {

/// The namespace under which the auxiliary references live.
pub const STACKER_REF_PREFIX: &'static str = "refs/stacker/";

/// A branch, known by its name. Its view is the name.
#[derive(Debug, PartialEq, Eq)]
pub struct Branch {
    name: String,
}

impl View for Branch {
    type V = Seq<char>;

    closed spec fn view(&self) -> Seq<char> {
        self.name@
    }
}

impl Clone for Branch {
    fn clone(&self) -> (r: Self)
        ensures
            r@ == self@,
    {
        Branch { name: self.name.clone() }
    }
}

/// Which of the three auxiliary references of a branch a name is.
#[derive(Clone, Copy, Debug, PartialEq, Eq, Structural)]
pub enum Aux {
    Base,
    Start,
    Remote,
}

impl Branch {
    pub open spec fn heads_prefix() -> Seq<char> {
        "refs/heads/"@
    }

    pub open spec fn aux_prefix(kind: Aux) -> Seq<char> {
        match kind {
            Aux::Base => STACKER_REF_PREFIX@ + "base/"@,
            Aux::Start => STACKER_REF_PREFIX@ + "start/"@,
            Aux::Remote => STACKER_REF_PREFIX@ + "remote/"@,
        }
    }

    /// The primary reference of the branch called `name`.
    pub open spec fn primary_ref(name: Seq<char>) -> Seq<char> {
        Self::heads_prefix() + name
    }

    /// The auxiliary reference of the given kind of the branch called `name`.
    pub open spec fn aux_ref(kind: Aux, name: Seq<char>) -> Seq<char> {
        Self::aux_prefix(kind) + name
    }

    pub open spec fn base_ref(name: Seq<char>) -> Seq<char> {
        Self::aux_ref(Aux::Base, name)
    }

    pub open spec fn start_ref(name: Seq<char>) -> Seq<char> {
        Self::aux_ref(Aux::Start, name)
    }

    pub open spec fn remote_ref(name: Seq<char>) -> Seq<char> {
        Self::aux_ref(Aux::Remote, name)
    }

    /// What is left of `full` behind `prefix`, where it begins with it.
    pub open spec fn behind(prefix: Seq<char>, full: Seq<char>) -> Option<Seq<char>> {
        if prefix.is_prefix_of(full) {
            Some(full.skip(prefix.len() as int))
        } else {
            None
        }
    }

    /// The branch whose auxiliary reference of the given kind `refname` is.
    pub open spec fn owner(kind: Aux, refname: Seq<char>) -> Option<Seq<char>> {
        Self::behind(Self::aux_prefix(kind), refname)
    }

    /// The branch that `refname` is an auxiliary reference of, of any kind.
    pub open spec fn aux_owner(refname: Seq<char>) -> Option<Seq<char>> {
        if Self::owner(Aux::Base, refname) is Some {
            Self::owner(Aux::Base, refname)
        } else if Self::owner(Aux::Start, refname) is Some {
            Self::owner(Aux::Start, refname)
        } else {
            Self::owner(Aux::Remote, refname)
        }
    }

    /// The names of the branches of a sequence, in its order.
    pub open spec fn names(branches: Seq<Branch>) -> Seq<Seq<char>> {
        Seq::new(branches.len(), |i: int| branches[i]@)
    }

    /// The lengths and the telling characters of the four prefixes.
    pub proof fn lemma_prefixes()
        ensures
            Self::heads_prefix().len() == 11,
            Self::heads_prefix()[5] == 'h',
            Self::aux_prefix(Aux::Base).len() == 18,
            Self::aux_prefix(Aux::Start).len() == 19,
            Self::aux_prefix(Aux::Remote).len() == 20,
            Self::aux_prefix(Aux::Base)[5] == 's',
            Self::aux_prefix(Aux::Start)[5] == 's',
            Self::aux_prefix(Aux::Remote)[5] == 's',
            Self::aux_prefix(Aux::Base)[13] == 'b',
            Self::aux_prefix(Aux::Start)[13] == 's',
            Self::aux_prefix(Aux::Remote)[13] == 'r',
    {
        reveal_strlit("refs/heads/");
        reveal_strlit("refs/stacker/");
        reveal_strlit("base/");
        reveal_strlit("start/");
        reveal_strlit("remote/");
    }

    /// A reference name has the owner `name` of a kind exactly when it is
    /// that branch's auxiliary reference of that kind.
    pub proof fn lemma_owner(kind: Aux, refname: Seq<char>, name: Seq<char>)
        ensures
            Self::owner(kind, refname) == Some(name) <==> refname == Self::aux_ref(kind, name),
    {
        let p = Self::aux_prefix(kind);
        if Self::owner(kind, refname) == Some(name) {
            assert(refname =~= p + refname.skip(p.len() as int));
        }
        if refname == Self::aux_ref(kind, name) {
            assert(p.is_prefix_of(refname));
            assert(refname.skip(p.len() as int) =~= name);
        }
    }

    /// No name is an auxiliary reference of two kinds, and none is both an
    /// auxiliary and a primary reference.
    pub proof fn lemma_kinds_apart(k1: Aux, k2: Aux, refname: Seq<char>)
        ensures
            Self::owner(k1, refname) is Some && Self::owner(k2, refname) is Some ==> k1 == k2,
            Self::owner(k1, refname) is Some ==> !Self::heads_prefix().is_prefix_of(refname),
    {
        Self::lemma_prefixes();
        if Self::owner(k1, refname) is Some {
            let p1 = Self::aux_prefix(k1);
            assert(refname[5] == p1[5]);
            assert(refname[13] == p1[13]);
            if Self::heads_prefix().is_prefix_of(refname) {
                assert(refname[5] == Self::heads_prefix()[5]);
            }
            if Self::owner(k2, refname) is Some {
                let p2 = Self::aux_prefix(k2);
                assert(refname[13] == p2[13]);
            }
        }
    }

    /// The owner of an auxiliary reference of any kind, and that a primary
    /// reference has none.
    pub proof fn lemma_aux_owner(kind: Aux, name: Seq<char>)
        ensures
            Self::aux_owner(Self::aux_ref(kind, name)) == Some(name),
            Self::aux_owner(Self::primary_ref(name)) is None,
            forall|k: Aux| k != kind ==> Self::owner(k, Self::aux_ref(kind, name)) is None,
            forall|k: Aux| Self::owner(k, Self::primary_ref(name)) is None,
    {
        let r = Self::aux_ref(kind, name);
        Self::lemma_owner(kind, r, name);
        assert forall|k: Aux| k != kind implies Self::owner(k, r) is None by {
            Self::lemma_kinds_apart(k, kind, r);
        }
        let p = Self::primary_ref(name);
        assert(Self::heads_prefix().is_prefix_of(p));
        assert forall|k: Aux| Self::owner(k, p) is None by {
            Self::lemma_kinds_apart(k, k, p);
        }
    }

    /// Whatever owns a name under `aux_owner` owns it under one of the kinds.
    pub proof fn lemma_aux_owner_kind(refname: Seq<char>) -> (kind: Aux)
        requires
            Self::aux_owner(refname) is Some,
        ensures
            Self::owner(kind, refname) == Self::aux_owner(refname),
            refname == Self::aux_ref(kind, Self::aux_owner(refname)->0),
    {
        let kind = if Self::owner(Aux::Base, refname) is Some {
            Aux::Base
        } else if Self::owner(Aux::Start, refname) is Some {
            Aux::Start
        } else {
            Aux::Remote
        };
        Self::lemma_owner(kind, refname, Self::aux_owner(refname)->0);
        kind
    }

    /// The names that a branch owns are its three auxiliary references.
    pub proof fn lemma_owned(refname: Seq<char>, name: Seq<char>)
        ensures
            Self::aux_owner(refname) == Some(name) <==> (refname == Self::base_ref(name) || refname
                == Self::start_ref(name) || refname == Self::remote_ref(name)),
            Self::base_ref(name) != Self::start_ref(name),
            Self::base_ref(name) != Self::remote_ref(name),
            Self::start_ref(name) != Self::remote_ref(name),
    {
        Self::lemma_aux_owner(Aux::Base, name);
        Self::lemma_aux_owner(Aux::Start, name);
        Self::lemma_aux_owner(Aux::Remote, name);
        assert(Self::owner(Aux::Base, Self::start_ref(name)) is None);
        assert(Self::owner(Aux::Base, Self::remote_ref(name)) is None);
        assert(Self::owner(Aux::Start, Self::remote_ref(name)) is None);
        Self::lemma_owner(Aux::Base, Self::base_ref(name), name);
        Self::lemma_owner(Aux::Start, Self::start_ref(name), name);
        if Self::aux_owner(refname) == Some(name) {
            let kind = Self::lemma_aux_owner_kind(refname);
        }
    }

    /// Whether `b` is one of the first `i` of `names`.
    pub open spec fn among(names: Seq<Seq<char>>, i: int, b: Seq<char>) -> bool {
        exists|j: int| 0 <= j < i && j < names.len() && #[trigger] names[j] == b
    }

    /// Whether `b` is among the first names, one step on.
    pub proof fn lemma_among_step(names: Seq<Seq<char>>, i: int, b: Seq<char>)
        requires
            0 <= i < names.len(),
        ensures
            Self::among(names, i + 1, b) <==> (Self::among(names, i, b) || names[i] == b),
            names.no_duplicates() ==> !Self::among(names, i, names[i]),
    {
        if Self::among(names, i + 1, b) {
            let j = choose|j: int| 0 <= j < i + 1 && j < names.len() && #[trigger] names[j] == b;
            if j < i {
                assert(Self::among(names, i, b));
            }
        }
        if Self::among(names, i, b) {
            let j = choose|j: int| 0 <= j < i && j < names.len() && #[trigger] names[j] == b;
            assert(0 <= j < i + 1 && names[j] == b);
        }
        if names[i] == b {
            assert(0 <= i < i + 1 && names[i] == b);
        }
    }

    /// None is among the first none, and among all are those that the
    /// sequence holds.
    pub proof fn lemma_among_ends(names: Seq<Seq<char>>, b: Seq<char>)
        ensures
            !Self::among(names, 0, b),
            Self::among(names, names.len() as int, b) <==> names.contains(b),
    {
        if names.contains(b) {
            let j = choose|j: int| 0 <= j < names.len() && names[j] == b;
            assert(0 <= j < names.len() && names[j] == b);
        }
    }

    /// The primary reference names of two branches agree only where the
    /// branches do.
    pub proof fn lemma_primary_injective(a: Seq<char>, b: Seq<char>)
        ensures
            Self::primary_ref(a) == Self::primary_ref(b) <==> a == b,
    {
        let p = Self::heads_prefix();
        if Self::primary_ref(a) == Self::primary_ref(b) {
            assert(a =~= Self::primary_ref(a).skip(p.len() as int));
            assert(b =~= Self::primary_ref(b).skip(p.len() as int));
        }
    }

    pub fn new(name: String) -> (r: Self)
        ensures
            r@ == name@,
    {
        Branch { name }
    }

    pub fn name(&self) -> (r: &str)
        ensures
            r@ == self@,
    {
        self.name.as_str()
    }

    /// Whether two branches have the same name.
    pub fn same(&self, other: &Branch) -> (r: bool)
        ensures
            r == (self@ == other@),
    {
        self.name == other.name
    }

    pub fn refname(&self) -> (r: String)
        ensures
            r@ == Self::primary_ref(self@),
    {
        String::from_str("refs/heads/").concat(self.name.as_str())
    }

    pub fn stacker_base_refname(&self) -> (r: String)
        ensures
            r@ == Self::base_ref(self@),
    {
        String::from_str(STACKER_REF_PREFIX).concat("base/").concat(self.name.as_str())
    }

    pub fn stacker_start_refname(&self) -> (r: String)
        ensures
            r@ == Self::start_ref(self@),
    {
        String::from_str(STACKER_REF_PREFIX).concat("start/").concat(self.name.as_str())
    }

    pub fn stacker_remote_refname(&self) -> (r: String)
        ensures
            r@ == Self::remote_ref(self@),
    {
        String::from_str(STACKER_REF_PREFIX).concat("remote/").concat(self.name.as_str())
    }

    /// The branch that the reference called `refname` holds a record of:
    /// the rest of the name behind the prefix of one of the three kinds.
    pub fn tracked_by(refname: &str) -> (r: Option<Branch>)
        ensures
            match r {
                Some(b) => Self::aux_owner(refname@) == Some(b@),
                None => Self::aux_owner(refname@) is None,
            },
    {
        let base = String::from_str(STACKER_REF_PREFIX).concat("base/");
        let start = String::from_str(STACKER_REF_PREFIX).concat("start/");
        let remote = String::from_str(STACKER_REF_PREFIX).concat("remote/");
        match rest_behind(base.as_str(), refname) {
            Some(name) => Some(Branch { name }),
            None => match rest_behind(start.as_str(), refname) {
                Some(name) => Some(Branch { name }),
                None => match rest_behind(remote.as_str(), refname) {
                    Some(name) => Some(Branch { name }),
                    None => None,
                },
            },
        }
    }
}

/// What stands in `full` behind `prefix`, where `full` begins with it.
pub fn rest_behind(prefix: &str, full: &str) -> (r: Option<String>)
    ensures
        match r {
            Some(s) => Branch::behind(prefix@, full@) == Some(s@),
            None => Branch::behind(prefix@, full@) is None,
        },
{
    let n: usize = full.unicode_len();
    let p: usize = prefix.unicode_len();
    if n < p {
        return None;
    }
    let mut i: usize = 0;
    while i < p
        invariant
            i <= p <= n,
            n == full@.len(),
            p == prefix@.len(),
            forall|j: int| 0 <= j < i ==> full@[j] == prefix@[j],
        decreases p - i,
    {
        if full.get_char(i) != prefix.get_char(i) {
            assert(!prefix@.is_prefix_of(full@)) by {
                if prefix@.is_prefix_of(full@) {
                    assert(full@.subrange(0, p as int)[i as int] == prefix@[i as int]);
                }
            }
            return None;
        }
        i += 1;
    }
    assert(prefix@ =~= full@.subrange(0, p as int));
    let rest = String::from_str(full.substring_char(p, n));
    assert(rest@ =~= full@.skip(p as int));
    Some(rest)
}

} // verus!
