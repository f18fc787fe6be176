//! References as a snapshot shows them, the snapshot, and the listing that a
//! snapshot is read from.

use vstd::prelude::*;
use crate::object::ObjectName;
use crate::object::Status;
use crate::table::Table;

verus! {

/// One reference as a snapshot shows it: its name, the object it resolves
/// to, the reference it names if it is symbolic, and the remote that it is
/// associated with, if any.
#[derive(Debug, PartialEq, Eq)]
pub struct Ref {
    pub name: String,
    pub objectname: ObjectName,
    pub symref_target: Option<String>,
    pub remote: Option<String>,
}

pub struct RefView {
    pub name: Seq<char>,
    pub objectname: Seq<char>,
    pub symref_target: Option<Seq<char>>,
    pub remote: Option<Seq<char>>,
}

/// The format in which a listing gives one reference on a line: its name,
/// the object it resolves to, the reference it names if it is symbolic, and
/// the remote it is associated with, with a tab between them. A field that
/// is empty stands for what is missing.
pub const LISTING_FORMAT: &'static str =
    "%(refname)%09%(objectname)%09%(symref)%09%(upstream:remotename)";

/// The views of the texts of a sequence, in its order.
pub open spec fn texts(v: Seq<String>) -> Seq<Seq<char>> {
    Seq::new(v.len(), |i: int| v[i]@)
}

/// The fields of a line: the texts between its tabs, one more than it has
/// tabs.
pub open spec fn fields(line: Seq<char>) -> Seq<Seq<char>>
    decreases line.len(),
{
    if line.len() == 0 {
        seq![Seq::empty()]
    } else {
        let before = fields(line.drop_last());
        if line.last() == '\t' {
            before.push(Seq::empty())
        } else {
            before.drop_last().push(before.last().push(line.last()))
        }
    }
}

/// A line has a field.
pub proof fn lemma_fields_some(line: Seq<char>)
    ensures
        fields(line).len() >= 1,
    decreases line.len(),
{
    if line.len() > 0 {
        lemma_fields_some(line.drop_last());
    }
}

/// The text of a field that is not empty.
pub open spec fn filled(field: Seq<char>) -> Option<Seq<char>> {
    if field.len() == 0 {
        None
    } else {
        Some(field)
    }
}

/// The fields of the line.
pub fn split_fields(line: &str) -> (r: Vec<String>)
    ensures
        texts(r@) == fields(line@),
{
    let n: usize = line.unicode_len();
    let mut out: Vec<String> = Vec::new();
    let mut start: usize = 0;
    let mut i: usize = 0;
    proof {
        assert(line@.take(0) =~= Seq::<char>::empty());
        assert(texts(out@).push(line@.subrange(0, 0)) =~= fields(line@.take(0)));
    }
    while i < n
        invariant
            start <= i <= n,
            n == line@.len(),
            texts(out@).push(line@.subrange(start as int, i as int)) == fields(
                line@.take(i as int),
            ),
        decreases n - i,
    {
        let ghost done = texts(out@);
        let ghost current = line@.subrange(start as int, i as int);
        let ghost upto = line@.take(i as int + 1);
        proof {
            assert(upto.drop_last() =~= line@.take(i as int));
            assert(upto.last() == line@[i as int]);
            assert(done.push(current).drop_last() =~= done);
            assert(done.push(current).last() == current);
        }
        if line.get_char(i) == '\t' {
            out.push(String::from_str(line.substring_char(start, i)));
            start = i + 1;
            proof {
                assert(texts(out@) =~= done.push(current));
                assert(line@.subrange(start as int, i as int + 1) =~= Seq::<char>::empty());
            }
        } else {
            proof {
                assert(line@.subrange(start as int, i as int + 1) =~= current.push(
                    line@[i as int],
                ));
            }
        }
        i += 1;
    }
    let ghost done = texts(out@);
    out.push(String::from_str(line.substring_char(start, n)));
    proof {
        assert(line@.take(n as int) =~= line@);
        assert(texts(out@) =~= done.push(line@.subrange(start as int, n as int)));
    }
    out
}

/// The view of a text that may be missing.
pub open spec fn text_view(t: Option<String>) -> Option<Seq<char>> {
    match t {
        Some(s) => Some(s@),
        None => None,
    }
}

impl View for Ref {
    type V = RefView;

    open spec fn view(&self) -> RefView {
        RefView {
            name: self.name@,
            objectname: self.objectname@,
            symref_target: text_view(self.symref_target),
            remote: text_view(self.remote),
        }
    }
}

impl Ref {
    /// The reference that a line of a listing gives: the line has four
    /// fields, and an empty third or fourth stands for what is missing.
    pub open spec fn listed(line: Seq<char>) -> Option<RefView> {
        let f = fields(line);
        if f.len() == 4 {
            Some(
                RefView {
                    name: f[0],
                    objectname: f[1],
                    symref_target: filled(f[2]),
                    remote: filled(f[3]),
                },
            )
        } else {
            None
        }
    }

    /// Reads a reference from a line of a listing.
    pub fn from_line(line: &str) -> (r: Option<Ref>)
        ensures
            match r {
                Some(x) => Ref::listed(line@) == Some(x@),
                None => Ref::listed(line@) is None,
            },
    {
        let found = split_fields(line);
        if found.len() != 4 {
            return None;
        }
        let ghost f = texts(found@);
        assert(f[0] == found@[0]@ && f[1] == found@[1]@ && f[2] == found@[2]@ && f[3]
            == found@[3]@);
        let symref_target = if found[2].as_str().is_empty() {
            None
        } else {
            Some(found[2].clone())
        };
        let remote = if found[3].as_str().is_empty() {
            None
        } else {
            Some(found[3].clone())
        };
        Some(
            Ref {
                name: found[0].clone(),
                objectname: ObjectName::new(found[1].clone()),
                symref_target,
                remote,
            },
        )
    }
}

/// A reading of the references at one moment: a map from reference names to
/// references, each under its own name when it was filled by `insert`.
pub struct RefSnapshot {
    table: Table<String, Ref>,
}

impl View for RefSnapshot {
    type V = Map<Seq<char>, RefView>;

    closed spec fn view(&self) -> Map<Seq<char>, RefView> {
        self.table@
    }
}

impl RefSnapshot {
    /// What the first `n` lines of a listing give: each line a reference,
    /// filed under its name in place of what an earlier line gave. Nothing
    /// where one of the lines is no reference.
    pub open spec fn listing(lines: Seq<Seq<char>>, n: int) -> Option<Map<Seq<char>, RefView>>
        decreases n,
    {
        if n <= 0 {
            Some(Map::empty())
        } else {
            let before = Self::listing(lines, n - 1);
            let last = Ref::listed(lines[n - 1]);
            if before is Some && last is Some {
                Some(before->0.insert(last->0.name, last->0))
            } else {
                None
            }
        }
    }

    /// A listing with a line that is no reference gives nothing, however
    /// it goes on.
    pub proof fn lemma_listing_lost(lines: Seq<Seq<char>>, n: int, m: int)
        requires
            0 <= n <= m,
            Self::listing(lines, n) is None,
        ensures
            Self::listing(lines, m) is None,
        decreases m - n,
    {
        if n < m {
            Self::lemma_listing_lost(lines, n, m - 1);
        }
    }

    /// Reads a snapshot from the lines of a listing.
    pub fn from_lines(lines: &Vec<String>) -> (r: Option<Self>)
        ensures
            match r {
                Some(s) => Self::listing(texts(lines@), lines@.len() as int) == Some(s@),
                None => Self::listing(texts(lines@), lines@.len() as int) is None,
            },
    {
        let mut snap = RefSnapshot::new();
        let mut i: usize = 0;
        while i < lines.len()
            invariant
                i <= lines.len(),
                Self::listing(texts(lines@), i as int) == Some(snap@),
            decreases lines.len() - i,
        {
            assert(texts(lines@)[i as int] == lines@[i as int]@);
            match Ref::from_line(lines[i].as_str()) {
                Some(found) => {
                    snap.insert(found);
                },
                None => {
                    proof {
                        Self::lemma_listing_lost(
                            texts(lines@),
                            i as int + 1,
                            lines@.len() as int,
                        );
                    }
                    return None;
                },
            }
            i += 1;
        }
        Some(snap)
    }

    pub fn new() -> (r: Self)
        ensures
            r@ == Map::<Seq<char>, RefView>::empty(),
    {
        RefSnapshot { table: Table::new() }
    }

    /// Files `r` under its name, in place of what stood there.
    pub fn insert(&mut self, r: Ref)
        ensures
            final(self)@ == old(self)@.insert(r.name@, r@),
    {
        let key = r.name.clone();
        self.table.insert(key, r);
    }

    /// The reference called `name`, where the snapshot holds one.
    pub fn get(&self, name: &str) -> (r: Option<&Ref>)
        ensures
            match r {
                Some(x) => self@.contains_key(name@) && x@ == self@[name@],
                None => !self@.contains_key(name@),
            },
    {
        let key = String::from_str(name);
        self.table.get(&key)
    }

    /// The reference called `name`, or the failure with status 1 and
    /// nothing captured where the snapshot holds none.
    pub fn find(&self, name: &str) -> (r: Result<&Ref, Status>)
        ensures
            match r {
                Ok(x) => self@.contains_key(name@) && x@ == self@[name@],
                Err(s) => !self@.contains_key(name@) && s@ == Status::bare(1),
            },
    {
        match self.get(name) {
            Some(found) => Ok(found),
            None => Err(Status::with(1)),
        }
    }

    pub fn len(&self) -> (r: usize)
        ensures
            r == self@.dom().len(),
            self@.dom().finite(),
    {
        let n = self.table.len();
        proof {
            self.table.key_seq().unique_seq_to_set();
        }
        n
    }
}

} // verus!
