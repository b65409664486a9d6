//! The cancellation handles of the downloads that are running, by id.

use vstd::prelude::*;
use tokio_util::sync::CancellationToken;
use crate::text::text_eq;

verus! {

#[verifier::external_type_specification]
#[verifier::external_body]
pub struct ExCancellationToken(CancellationToken);

/// `CancellationToken::cancel`: cancels the token and the tokens derived
/// from it.  Its effect is on state shared with the token's clones, which
/// the library does not model; nothing is stated.
#[verifier::external_body]
fn cancel_token(token: &CancellationToken) {
    token.cancel();
}

/// At most one handle per download id, as in a map keyed by id.
pub struct CancelRegistry {
    entries: Vec<(String, CancellationToken)>,
}

/// The ids in `entries`, in order.
pub open spec fn entry_ids(entries: Seq<(String, CancellationToken)>) -> Seq<Seq<char>> {
    entries.map_values(|e: (String, CancellationToken)| e.0@)
}

/// No id occurs twice.
pub open spec fn ids_unique(ids: Seq<Seq<char>>) -> bool {
    forall|i: int, j: int| 0 <= i < j < ids.len() ==> ids[i] != ids[j]
}

/// The handle registered under each id of `entries`.
pub open spec fn handles_of(entries: Seq<(String, CancellationToken)>) -> Map<
    Seq<char>,
    CancellationToken,
> {
    Map::new(
        |id: Seq<char>| entry_ids(entries).contains(id),
        |id: Seq<char>| entries[entry_ids(entries).index_of(id)].1,
    )
}

proof fn lemma_handle_at(entries: Seq<(String, CancellationToken)>, i: int)
    requires
        ids_unique(entry_ids(entries)),
        0 <= i < entries.len(),
    ensures
        handles_of(entries).contains_key(entries[i].0@),
        handles_of(entries)[entries[i].0@] == entries[i].1,
{
    let ids = entry_ids(entries);
    let id = entries[i].0@;
    assert(ids[i] == id);
    assert(ids.contains(id));
    let k = ids.index_of(id);
    if k != i {
        assert(ids[k] == id);
    }
}

/// The position of `id` in `entries`, if it is there.
fn find_entry(entries: &Vec<(String, CancellationToken)>, id: &str) -> (r: Option<usize>)
    requires
        ids_unique(entry_ids(entries@)),
    ensures
        r matches Some(i) ==> i < entries@.len() && entries@[i as int].0@ == id@,
        r is None ==> !handles_of(entries@).contains_key(id@),
{
    let mut i: usize = 0;
    while i < entries.len()
        invariant
            i <= entries@.len(),
            forall|j: int| 0 <= j < i ==> (#[trigger] entries@[j]).0@ != id@,
        decreases entries@.len() - i,
    {
        if text_eq(entries[i].0.as_str(), id) {
            return Some(i);
        }
        i += 1;
    }
    proof {
        let ids = entry_ids(entries@);
        if ids.contains(id@) {
            let k = choose|k: int| 0 <= k < ids.len() && ids[k] == id@;
            assert(entries@[k].0@ == id@);
        }
    }
    None
}

/// Drops the entry of `id` from `entries`, if there is one.
fn remove_entry(entries: &mut Vec<(String, CancellationToken)>, id: &str)
    requires
        ids_unique(entry_ids(old(entries)@)),
    ensures
        ids_unique(entry_ids(final(entries)@)),
        handles_of(final(entries)@) == handles_of(old(entries)@).remove(id@),
{
    match find_entry(entries, id) {
        Some(i) => {
            let ghost before = entries@;
            let _ = entries.remove(i);
            proof {
                let ids0 = entry_ids(before);
                let ids1 = entry_ids(entries@);
                let h0 = handles_of(before);
                let h1 = handles_of(entries@);
                assert(ids1 =~= ids0.remove(i as int));
                assert forall|a: int, b: int| 0 <= a < b < ids1.len() implies ids1[a] != ids1[b] by {
                    let a0 = if a < i { a } else { a + 1 };
                    let b0 = if b < i { b } else { b + 1 };
                    assert(ids1[a] == ids0[a0] && ids1[b] == ids0[b0]);
                }
                assert forall|k: Seq<char>| #[trigger] h1.contains_key(k) == h0.remove(id@).contains_key(k) by {
                    if ids1.contains(k) {
                        let p = choose|p: int| 0 <= p < ids1.len() && ids1[p] == k;
                        let p0 = if p < i { p } else { p + 1 };
                        assert(ids0[p0] == k);
                        assert(ids0[i as int] == id@);
                    }
                    if ids0.contains(k) && k != id@ {
                        let p = choose|p: int| 0 <= p < ids0.len() && ids0[p] == k;
                        assert(p != i);
                        let p1 = if p < i { p } else { p - 1 };
                        assert(ids1[p1] == k);
                    }
                }
                assert forall|k: Seq<char>| #[trigger] h1.contains_key(k) implies h1[k] == h0.remove(id@)[k] by {
                    let p = choose|p: int| 0 <= p < ids1.len() && ids1[p] == k;
                    lemma_handle_at(entries@, p);
                    let p0 = if p < i { p } else { p + 1 };
                    assert(entries@[p] == before[p0]);
                    lemma_handle_at(before, p0);
                }
                assert(h1 =~= h0.remove(id@));
            }
        },
        None => {
            assert(handles_of(entries@) =~= handles_of(entries@).remove(id@));
        },
    }
}

/// Registers `token` under `id` in `entries`, replacing the entry of `id`.
fn insert_entry(entries: &mut Vec<(String, CancellationToken)>, id: String, token: CancellationToken)
    requires
        ids_unique(entry_ids(old(entries)@)),
    ensures
        ids_unique(entry_ids(final(entries)@)),
        handles_of(final(entries)@) == handles_of(old(entries)@).insert(id@, token),
{
    remove_entry(entries, id.as_str());
    let ghost before = entries@;
    let ghost key = id@;
    entries.push((id, token));
    proof {
        let ids0 = entry_ids(before);
        let ids1 = entry_ids(entries@);
        let mid = handles_of(before);
        assert(!mid.contains_key(key));
        assert(!ids0.contains(key));
        assert(ids1 =~= ids0.push(key));
        assert forall|i: int, j: int| 0 <= i < j < ids1.len() implies ids1[i] != ids1[j] by {
            if j == ids0.len() {
                assert(ids0[i] == ids1[i]);
                assert(ids0.contains(ids0[i]));
            } else {
                assert(ids0[i] == ids1[i] && ids0[j] == ids1[j]);
            }
        }
        let after = handles_of(entries@);
        assert forall|k: Seq<char>| #[trigger] after.contains_key(k) == mid.insert(key, token).contains_key(k) by {
            if ids1.contains(k) && k != key {
                let p = choose|p: int| 0 <= p < ids1.len() && ids1[p] == k;
                assert(p < ids0.len());
                assert(ids0[p] == k);
            }
            if ids0.contains(k) {
                let p = choose|p: int| 0 <= p < ids0.len() && ids0[p] == k;
                assert(ids1[p] == k);
            }
            assert(ids1[ids0.len() as int] == key);
        }
        assert forall|k: Seq<char>| #[trigger] after.contains_key(k) implies after[k] == mid.insert(key, token)[k] by {
            let p = choose|p: int| 0 <= p < ids1.len() && ids1[p] == k;
            lemma_handle_at(entries@, p);
            if k != key {
                assert(p < ids0.len());
                assert(entries@[p] == before[p]);
                assert(ids0[p] == k);
                lemma_handle_at(before, p);
            }
        }
        assert(after =~= mid.insert(key, token));
    }
}

impl CancelRegistry {
    /// The handle registered under each id.
    pub closed spec fn handles(&self) -> Map<Seq<char>, CancellationToken> {
        handles_of(self.entries@)
    }

    /// No id is registered twice.
    #[verifier::type_invariant]
    spec fn ids_are_unique(&self) -> bool {
        ids_unique(entry_ids(self.entries@))
    }

    pub fn new() -> (r: Self)
        ensures
            r.handles() == Map::<Seq<char>, CancellationToken>::empty(),
    {
        let r = CancelRegistry { entries: Vec::new() };
        assert(r.handles() =~= Map::<Seq<char>, CancellationToken>::empty());
        r
    }

    /// Registers `token` under `id`, replacing any handle registered under
    /// it before.
    pub fn insert(&mut self, id: String, token: CancellationToken)
        ensures
            final(self).handles() == old(self).handles().insert(id@, token),
    {
        proof {
            use_type_invariant(&*self);
        }
        let mut entries: Vec<(String, CancellationToken)> = Vec::new();
        std::mem::swap(&mut entries, &mut self.entries);
        insert_entry(&mut entries, id, token);
        self.entries = entries;
    }

    /// Forgets the handle registered under `id`, if any.
    pub fn remove(&mut self, id: &str)
        ensures
            final(self).handles() == old(self).handles().remove(id@),
    {
        proof {
            use_type_invariant(&*self);
        }
        let mut entries: Vec<(String, CancellationToken)> = Vec::new();
        std::mem::swap(&mut entries, &mut self.entries);
        remove_entry(&mut entries, id);
        self.entries = entries;
    }

    /// Cancels the download registered under `id`.  Returns whether one
    /// was registered.
    pub fn cancel(&self, id: &str) -> (r: bool)
        ensures
            r == self.handles().contains_key(id@),
    {
        proof {
            use_type_invariant(self);
        }
        match find_entry(&self.entries, id) {
            Some(i) => {
                proof {
                    lemma_handle_at(self.entries@, i as int);
                }
                cancel_token(&self.entries[i].1);
                true
            },
            None => false,
        }
    }
}

} // verus!
