//! The custom-type registry: a single, append-only, insertion-ordered store
//! of named wire-type definitions, scoped to one compilation run.
//!
//! Registration is keyed by canonical signature and idempotent: a signature
//! that is already present is left untouched, so the final contents list each
//! logical type exactly once, in strict first-encounter order.

use vstd::prelude::*;

verus! {

/// One registered definition: the canonical signature, which doubles as the
/// emitted type name, and the full wire-type definition text.
#[derive(Clone, Debug)]
pub struct Entry {
    pub signature: String,
    pub definition: String,
}

impl View for Entry {
    type V = (Seq<char>, Seq<char>);

    open spec fn view(&self) -> (Seq<char>, Seq<char>) {
        (self.signature@, self.definition@)
    }
}

/// True when some entry carries the given signature.
pub open spec fn has_sig(entries: Seq<(Seq<char>, Seq<char>)>, sig: Seq<char>) -> bool {
    exists|i: int| 0 <= i < entries.len() && entries[i].0 == sig
}

/// The effect of registering one definition: a no-op when the signature is
/// already present, an append otherwise.
pub open spec fn absorb_one(
    entries: Seq<(Seq<char>, Seq<char>)>,
    e: (Seq<char>, Seq<char>),
) -> Seq<(Seq<char>, Seq<char>)> {
    if has_sig(entries, e.0) {
        entries
    } else {
        entries.push(e)
    }
}

/// The effect of registering a whole sequence of definitions, left to right.
pub open spec fn absorb(
    entries: Seq<(Seq<char>, Seq<char>)>,
    news: Seq<(Seq<char>, Seq<char>)>,
) -> Seq<(Seq<char>, Seq<char>)>
    decreases news.len(),
{
    if news.len() == 0 {
        entries
    } else {
        absorb(absorb_one(entries, news[0]), news.drop_first())
    }
}

/// All signatures in the sequence are pairwise distinct.
pub open spec fn sigs_unique(entries: Seq<(Seq<char>, Seq<char>)>) -> bool {
    forall|i: int, j: int| 0 <= i < j < entries.len() ==> entries[i].0 != entries[j].0
}

/// Absorbing distributes over concatenation of the registered sequences.
pub proof fn lemma_absorb_concat(
    entries: Seq<(Seq<char>, Seq<char>)>,
    a: Seq<(Seq<char>, Seq<char>)>,
    b: Seq<(Seq<char>, Seq<char>)>,
)
    ensures
        absorb(entries, a + b) == absorb(absorb(entries, a), b),
    decreases a.len(),
{
    if a.len() == 0 {
        assert(a + b =~= b);
    } else {
        assert((a + b)[0] == a[0]);
        assert((a + b).drop_first() =~= a.drop_first() + b);
        lemma_absorb_concat(absorb_one(entries, a[0]), a.drop_first(), b);
    }
}

/// Absorbing one definition keeps every signature that was present and adds
/// the new one.
pub proof fn lemma_absorb_one_sigs(
    entries: Seq<(Seq<char>, Seq<char>)>,
    e: (Seq<char>, Seq<char>),
)
    ensures
        has_sig(absorb_one(entries, e), e.0),
        forall|s: Seq<char>| has_sig(entries, s) ==> has_sig(absorb_one(entries, e), s),
        forall|s: Seq<char>|
            has_sig(absorb_one(entries, e), s) ==> has_sig(entries, s) || s == e.0,
{
    if !has_sig(entries, e.0) {
        assert(absorb_one(entries, e)[entries.len() as int].0 == e.0);
        assert(forall|s: Seq<char>| has_sig(entries, s) ==> has_sig(absorb_one(entries, e), s))
            by {
            assert forall|s: Seq<char>| has_sig(entries, s) implies has_sig(
                absorb_one(entries, e),
                s,
            ) by {
                let i = choose|i: int| 0 <= i < entries.len() && entries[i].0 == s;
                assert(absorb_one(entries, e)[i].0 == s);
            }
        }
        assert forall|s: Seq<char>| has_sig(absorb_one(entries, e), s) implies has_sig(entries, s)
            || s == e.0 by {
            let i = choose|i: int|
                0 <= i < absorb_one(entries, e).len() && absorb_one(entries, e)[i].0 == s;
            if i < entries.len() {
                assert(entries[i].0 == s);
            }
        }
    }
}

/// Idempotence of registration: absorbing the same signature twice has the
/// same effect as absorbing it once, whatever definition text comes with the
/// second occurrence.
pub proof fn lemma_register_idempotent(
    entries: Seq<(Seq<char>, Seq<char>)>,
    e: (Seq<char>, Seq<char>),
    d: (Seq<char>, Seq<char>),
)
    requires
        d.0 == e.0,
    ensures
        absorb_one(absorb_one(entries, e), d) == absorb_one(entries, e),
{
    lemma_absorb_one_sigs(entries, e);
}

/// Absorbing one definition preserves signature uniqueness.
pub proof fn lemma_absorb_one_unique(
    entries: Seq<(Seq<char>, Seq<char>)>,
    e: (Seq<char>, Seq<char>),
)
    requires
        sigs_unique(entries),
    ensures
        sigs_unique(absorb_one(entries, e)),
{
    if !has_sig(entries, e.0) {
        let out = absorb_one(entries, e);
        assert forall|i: int, j: int| 0 <= i < j < out.len() implies out[i].0 != out[j].0 by {
            if j == entries.len() {
                assert(out[i].0 == entries[i].0);
                if out[i].0 == e.0 {
                    assert(has_sig(entries, e.0));
                }
            }
        }
    }
}

/// Absorbing any sequence preserves signature uniqueness.
pub proof fn lemma_absorb_unique(
    entries: Seq<(Seq<char>, Seq<char>)>,
    news: Seq<(Seq<char>, Seq<char>)>,
)
    requires
        sigs_unique(entries),
    ensures
        sigs_unique(absorb(entries, news)),
    decreases news.len(),
{
    if news.len() > 0 {
        lemma_absorb_one_unique(entries, news[0]);
        lemma_absorb_unique(absorb_one(entries, news[0]), news.drop_first());
    }
}

/// Registration only ever appends: the old contents stay a prefix of the new,
/// so insertion order is stable across a whole run.
pub proof fn lemma_absorb_prefix(
    entries: Seq<(Seq<char>, Seq<char>)>,
    news: Seq<(Seq<char>, Seq<char>)>,
)
    ensures
        absorb(entries, news).len() >= entries.len(),
        forall|i: int|
            0 <= i < entries.len() ==> absorb(entries, news)[i] == entries[i],
    decreases news.len(),
{
    if news.len() > 0 {
        let step = absorb_one(entries, news[0]);
        assert(forall|i: int| 0 <= i < entries.len() ==> step[i] == entries[i]);
        lemma_absorb_prefix(step, news.drop_first());
    }
}

/// The index of the first entry carrying the signature.
pub open spec fn first_idx(s: Seq<(Seq<char>, Seq<char>)>, sig: Seq<char>) -> int
    decreases s.len(),
{
    if s.len() == 0 {
        0
    } else if s[0].0 == sig {
        0
    } else {
        1 + first_idx(s.drop_first(), sig)
    }
}

/// For a signature that occurs, `first_idx` names its first occurrence.
pub proof fn lemma_first_idx(s: Seq<(Seq<char>, Seq<char>)>, sig: Seq<char>)
    requires
        has_sig(s, sig),
    ensures
        0 <= first_idx(s, sig) < s.len(),
        s[first_idx(s, sig)].0 == sig,
        forall|k: int| 0 <= k < first_idx(s, sig) ==> s[k].0 != sig,
    decreases s.len(),
{
    if s[0].0 == sig {
    } else {
        let i = choose|i: int| 0 <= i < s.len() && s[i].0 == sig;
        assert(s.drop_first()[i - 1].0 == sig);
        lemma_first_idx(s.drop_first(), sig);
        assert(s[first_idx(s, sig)] == s.drop_first()[first_idx(s.drop_first(), sig)]);
        assert forall|k: int| 0 <= k < first_idx(s, sig) implies s[k].0 != sig by {
            if k > 0 {
                assert(s[k] == s.drop_first()[k - 1]);
            }
        }
    }
}

/// What absorbing appends: every appended entry is the first occurrence of
/// its signature in the absorbed sequence, its signature was not present
/// before, and the appended entries stand in the order of those first
/// occurrences.
pub proof fn lemma_absorb_first_encounter(
    acc: Seq<(Seq<char>, Seq<char>)>,
    s: Seq<(Seq<char>, Seq<char>)>,
)
    ensures
        forall|i: int|
            #![trigger absorb(acc, s)[i]]
            acc.len() <= i < absorb(acc, s).len() ==> {
                &&& has_sig(s, absorb(acc, s)[i].0)
                &&& absorb(acc, s)[i] == s[first_idx(s, absorb(acc, s)[i].0)]
                &&& !has_sig(acc, absorb(acc, s)[i].0)
                &&& forall|j: int|
                    acc.len() <= j < i ==> first_idx(s, absorb(acc, s)[j].0) < first_idx(
                        s,
                        absorb(acc, s)[i].0,
                    )
            },
    decreases s.len(),
{
    if s.len() > 0 {
        let e = s[0];
        let drop = s.drop_first();
        let acc1 = absorb_one(acc, e);
        let out = absorb(acc, s);
        assert(out == absorb(acc1, drop));
        lemma_absorb_first_encounter(acc1, drop);
        lemma_absorb_prefix(acc1, drop);
        lemma_absorb_one_sigs(acc, e);
        assert(forall|k: int| 0 <= k < drop.len() ==> drop[k] == s[k + 1]);
        assert forall|i: int|
            #![trigger out[i]]
            acc.len() <= i < out.len() implies {
            &&& has_sig(s, out[i].0)
            &&& out[i] == s[first_idx(s, out[i].0)]
            &&& !has_sig(acc, out[i].0)
            &&& forall|j: int|
                acc.len() <= j < i ==> first_idx(s, out[j].0) < first_idx(s, out[i].0)
        } by {
            if i < acc1.len() {
                // only possible when acc1 appended e at index acc.len()
                assert(!has_sig(acc, e.0));
                assert(out[i] == acc1[i]);
                assert(acc1[i] == e);
                assert(s[0].0 == e.0);
                assert(has_sig(s, e.0));
                assert(first_idx(s, e.0) == 0);
            } else {
                // an entry the recursion appended, first occurrence in drop
                let sig = out[i].0;
                assert(!has_sig(acc1, sig));
                assert(!has_sig(acc, sig));
                assert(sig != e.0);
                assert(has_sig(drop, sig));
                let w = choose|w: int| 0 <= w < drop.len() && drop[w].0 == sig;
                assert(s[w + 1].0 == sig);
                assert(has_sig(s, sig));
                assert(first_idx(s, sig) == 1 + first_idx(drop, sig));
                lemma_first_idx(drop, sig);
                assert(s[first_idx(s, sig)] == drop[first_idx(drop, sig)]);
                assert forall|j: int|
                    acc.len() <= j < i implies first_idx(s, out[j].0) < first_idx(
                    s,
                    out[i].0,
                ) by {
                    if j < acc1.len() {
                        assert(!has_sig(acc, e.0));
                        assert(out[j] == e);
                        assert(first_idx(s, e.0) == 0);
                        assert(first_idx(s, sig) >= 1);
                    } else {
                        assert(out[j].0 != e.0);
                        assert(first_idx(s, out[j].0) == 1 + first_idx(drop, out[j].0));
                    }
                }
            }
        }
    }
}

/// The dedup/ordering store for named type definitions.
///
/// Created empty for one compilation run, populated during resolution,
/// consumed once at emission time. No entry is ever removed or overwritten.
pub struct CustomTypeRegistry {
    pub entries: Vec<Entry>,
}

impl View for CustomTypeRegistry {
    type V = Seq<(Seq<char>, Seq<char>)>;

    open spec fn view(&self) -> Seq<(Seq<char>, Seq<char>)> {
        self.entries@.map_values(|e: Entry| e@)
    }
}

impl CustomTypeRegistry {
    /// Whether the registry is well formed: all signatures distinct.
    pub open spec fn wf(&self) -> bool {
        sigs_unique(self@)
    }

    /// Creates an empty registry for one compilation run.
    pub fn new() -> (r: CustomTypeRegistry)
        ensures
            r@ == Seq::<(Seq<char>, Seq<char>)>::empty(),
            r.wf(),
    {
        let r = CustomTypeRegistry { entries: Vec::new() };
        proof {
            assert(r@ =~= Seq::<(Seq<char>, Seq<char>)>::empty());
        }
        r
    }

    /// Whether an entry with the given signature is already registered.
    pub fn contains(&self, sig: &String) -> (r: bool)
        ensures
            r == has_sig(self@, sig@),
    {
        let n = self.entries.len();
        let mut i: usize = 0;
        while i < n
            invariant
                0 <= i <= n,
                n == self.entries.len(),
                forall|j: int| 0 <= j < i ==> self@[j].0 != sig@,
            decreases n - i,
        {
            if self.entries[i].signature == *sig {
                assert(self@[i as int].0 == sig@);
                return true;
            }
            i = i + 1;
        }
        false
    }

    /// Registers a definition under its canonical signature. If the signature
    /// is already present this is a no-op; otherwise the pair is appended.
    pub fn register(&mut self, signature: String, definition: String)
        ensures
            final(self)@ == absorb_one(old(self)@, (signature@, definition@)),
            old(self).wf() ==> final(self).wf(),
    {
        let present = self.contains(&signature);
        if !present {
            let ghost prior = self@;
            self.entries.push(Entry { signature, definition });
            proof {
                assert(self@ =~= prior.push((signature@, definition@)));
                if sigs_unique(prior) {
                    lemma_absorb_one_unique(prior, (signature@, definition@));
                }
            }
        }
    }

    /// The number of registered definitions.
    pub fn len(&self) -> (r: usize)
        ensures
            r == self@.len(),
    {
        self.entries.len()
    }

    /// Consumes the registry and hands back all definitions in insertion
    /// order, for final emission.
    pub fn drain_in_order(self) -> (r: Vec<Entry>)
        ensures
            r@.map_values(|e: Entry| e@) == self@,
    {
        self.entries
    }
}

} // verus!
