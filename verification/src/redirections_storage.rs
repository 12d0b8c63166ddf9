//! The redirections that have been started, in the order they were started,
//! each with the handle of the task that listens for it.

use vstd::prelude::*;
use crate::redirection::{Redirection, RedirectionMode};
use crate::text::same_text;

verus! {

/// The first position at or after `k` of a redirection called `name`.
pub open spec fn first_named_from(rs: Seq<Redirection>, name: Seq<char>, k: int) -> Option<int>
    decreases rs.len() - k,
{
    if k < 0 || k >= rs.len() {
        None
    } else if rs[k].name@ == name {
        Some(k)
    } else {
        first_named_from(rs, name, k + 1)
    }
}

/// The position of the first redirection called `name`: the one that a
/// lookup by name finds.
pub open spec fn first_named(rs: Seq<Redirection>, name: Seq<char>) -> Option<int> {
    first_named_from(rs, name, 0)
}

/// The redirections after the first one called `name` has been given `mode`,
/// or `None` when no redirection has that name.
pub open spec fn with_mode_of(rs: Seq<Redirection>, name: Seq<char>, mode: RedirectionMode) -> Option<
    Seq<Redirection>,
> {
    match first_named(rs, name) {
        Some(i) => Some(rs.update(i, rs[i].with_mode(mode))),
        None => None,
    }
}

pub proof fn lemma_first_named_from(rs: Seq<Redirection>, name: Seq<char>, k: int)
    requires
        0 <= k,
    ensures
        first_named_from(rs, name, k) matches Some(i) ==> {
            &&& k <= i < rs.len()
            &&& rs[i].name@ == name
            &&& forall|j: int| k <= j < i ==> #[trigger] rs[j].name@ != name
        },
        first_named_from(rs, name, k) is None ==> forall|j: int|
            k <= j < rs.len() ==> #[trigger] rs[j].name@ != name,
    decreases rs.len() - k,
{
    if k < rs.len() && rs[k].name@ != name {
        lemma_first_named_from(rs, name, k + 1);
    }
}

/// What a lookup by name finds, characterised without recursion.
pub proof fn lemma_first_named(rs: Seq<Redirection>, name: Seq<char>)
    ensures
        first_named(rs, name) matches Some(i) ==> {
            &&& 0 <= i < rs.len()
            &&& rs[i].name@ == name
            &&& forall|j: int| 0 <= j < i ==> #[trigger] rs[j].name@ != name
        },
        first_named(rs, name) is None ==> forall|j: int|
            0 <= j < rs.len() ==> #[trigger] rs[j].name@ != name,
{
    lemma_first_named_from(rs, name, 0);
}

/// Lookups by name depend on the names alone.
pub proof fn lemma_first_named_same_names(
    a: Seq<Redirection>,
    b: Seq<Redirection>,
    name: Seq<char>,
    k: int,
)
    requires
        a.len() == b.len(),
        forall|j: int| 0 <= j < a.len() ==> (#[trigger] a[j]).name@ == b[j].name@,
    ensures
        first_named_from(a, name, k) == first_named_from(b, name, k),
    decreases a.len() - k,
{
    if 0 <= k < a.len() {
        lemma_first_named_same_names(a, b, name, k + 1);
    }
}

/// A lookup after appending `r` finds what it found before, else `r`.
pub proof fn lemma_first_named_push(rs: Seq<Redirection>, r: Redirection, name: Seq<char>, k: int)
    requires
        0 <= k <= rs.len(),
    ensures
        first_named_from(rs.push(r), name, k) == match first_named_from(rs, name, k) {
            Some(i) => Some(i),
            None => if r.name@ == name {
                Some(rs.len() as int)
            } else {
                None::<int>
            },
        },
    decreases rs.len() - k,
{
    let after = rs.push(r);
    if k < rs.len() {
        assert(after[k] == rs[k]);
        lemma_first_named_push(rs, r, name, k + 1);
    } else {
        assert(after[k] == r);
        assert(first_named_from(after, name, k + 1) is None);
    }
}

/// The started redirections, in order, each with its listener's handle. It is
/// owned by one `CommandHandler`; whoever shares the handler shares it.
pub struct RedirectionsStorage<H> {
    pub redirections: Vec<Redirection>,
    pub threads: Vec<H>,
}

impl<H> RedirectionsStorage<H> {
    /// An empty storage.
    pub fn new() -> (s: Self)
        ensures
            s.redirections@ == Seq::<Redirection>::empty(),
            s.threads@ == Seq::<H>::empty(),
    {
        RedirectionsStorage { redirections: Vec::new(), threads: Vec::new() }
    }

    /// The position of the first redirection called `name`.
    pub fn position_by_name(&self, name: &str) -> (r: Option<usize>)
        ensures
            match r {
                Some(i) => first_named(self.redirections@, name@) == Some(i as int),
                None => first_named(self.redirections@, name@) == None::<int>,
            },
    {
        let n = self.redirections.len();
        let mut i: usize = 0;
        while i < n
            invariant
                n == self.redirections@.len(),
                i <= n,
                first_named(self.redirections@, name@) == first_named_from(
                    self.redirections@,
                    name@,
                    i as int,
                ),
            decreases n - i,
        {
            if same_text(self.redirections[i].name.as_str(), name) {
                return Some(i);
            }
            i = i + 1;
        }
        None
    }

    /// A copy of the first redirection called `name`. The copy is detached:
    /// changing its mode does not change the stored redirection, whose mode
    /// is changed through `CommandHandler::handle`.
    pub fn find_by_name(&self, name: &str) -> (r: Option<Redirection>)
        ensures
            match first_named(self.redirections@, name@) {
                Some(i) => r == Some(self.redirections@[i]),
                None => r is None,
            },
    {
        match self.position_by_name(name) {
            Some(i) => {
                proof {
                    lemma_first_named(self.redirections@, name@);
                }
                Some(self.redirections[i].clone())
            },
            None => None,
        }
    }

    /// Records a started redirection and the handle of its listener.
    pub fn add_redirection(&mut self, redirection: Redirection, handle: H)
        ensures
            final(self).redirections@ == old(self).redirections@.push(redirection),
            final(self).threads@ == old(self).threads@.push(handle),
    {
        self.redirections.push(redirection);
        self.threads.push(handle);
    }
}

} // verus!
