//! The ledger of capsules: what was built and what runs, by name.

use crate::config::{copy_text, inside, own_dir, own_file, Place};
use crate::text::{opt_str, opt_text, owned_texts};
use vstd::prelude::*;

verus! {

/// What is known of a capsule. One that was only built has no machine, and one whose machine
/// was terminated keeps its image.
#[derive(Debug)]
pub struct Capsule {
    pub image_arn: Option<String>,
    pub image_version: Option<String>,
    pub microvm_id: Option<String>,
    pub endpoint: Option<String>,
    pub state: Option<String>,
}

/// What a record holds.
#[verifier::ext_equal]
pub ghost struct CapsuleView {
    pub image_arn: Option<Seq<char>>,
    pub image_version: Option<Seq<char>>,
    pub microvm_id: Option<Seq<char>>,
    pub endpoint: Option<Seq<char>>,
    pub state: Option<Seq<char>>,
}

impl View for Capsule {
    type V = CapsuleView;

    open spec fn view(&self) -> CapsuleView {
        CapsuleView {
            image_arn: opt_text(self.image_arn),
            image_version: opt_text(self.image_version),
            microvm_id: opt_text(self.microvm_id),
            endpoint: opt_text(self.endpoint),
            state: opt_text(self.state),
        }
    }
}

/// A record of which nothing is known.
pub open spec fn blank() -> CapsuleView {
    CapsuleView {
        image_arn: None,
        image_version: None,
        microvm_id: None,
        endpoint: None,
        state: None,
    }
}

impl Clone for Capsule {
    fn clone(&self) -> (r: Capsule)
        ensures
            r@ == self@,
    {
        Capsule {
            image_arn: copy_text(&self.image_arn),
            image_version: copy_text(&self.image_version),
            microvm_id: copy_text(&self.microvm_id),
            endpoint: copy_text(&self.endpoint),
            state: copy_text(&self.state),
        }
    }
}

impl Default for Capsule {
    fn default() -> (r: Capsule)
        ensures
            r@ == blank(),
    {
        Capsule {
            image_arn: None,
            image_version: None,
            microvm_id: None,
            endpoint: None,
            state: None,
        }
    }
}

/// Whether one name comes before another: in the order of the characters in which they
/// differ first.
pub open spec fn before(a: Seq<char>, b: Seq<char>) -> bool
    decreases a.len(),
{
    if b.len() == 0 {
        false
    } else if a.len() == 0 {
        true
    } else if a[0] != b[0] {
        a[0] < b[0]
    } else {
        before(a.skip(1), b.skip(1))
    }
}

/// No name comes before itself.
pub proof fn lemma_before_irreflexive(a: Seq<char>)
    ensures
        !before(a, a),
    decreases a.len(),
{
    if a.len() > 0 {
        lemma_before_irreflexive(a.skip(1));
    }
}

proof fn lemma_before_transitive(a: Seq<char>, b: Seq<char>, c: Seq<char>)
    requires
        before(a, b),
        before(b, c),
    ensures
        before(a, c),
    decreases a.len(),
{
    if a.len() > 0 && b.len() > 0 && c.len() > 0 && a[0] == b[0] && b[0] == c[0] {
        lemma_before_transitive(a.skip(1), b.skip(1), c.skip(1));
    }
}

/// Where a name stands to another.
#[derive(Clone, Copy, PartialEq, Eq, Structural, Debug)]
enum Rank {
    Earlier,
    Same,
    Later,
}

/// Where one name stands to another.
fn rank(a: &str, b: &str) -> (r: Rank)
    ensures
        r == Rank::Earlier <==> before(a@, b@),
        r == Rank::Same <==> a@ == b@,
        r == Rank::Later <==> before(b@, a@),
{
    let x = crate::text::chars_of(a);
    let y = crate::text::chars_of(b);
    let mut i: usize = 0;
    proof {
        assert(a@.skip(0) =~= a@);
        assert(b@.skip(0) =~= b@);
        lemma_before_irreflexive(a@);
        if before(a@, b@) && before(b@, a@) {
            lemma_before_transitive(a@, b@, a@);
        }
    }
    while i < x.len() && i < y.len()
        invariant
            x@ == a@,
            y@ == b@,
            i <= x@.len(),
            i <= y@.len(),
            forall|k: int| 0 <= k < i ==> a@[k] == b@[k],
            before(a@, b@) == before(a@.skip(i as int), b@.skip(i as int)),
            before(b@, a@) == before(b@.skip(i as int), a@.skip(i as int)),
            !(before(a@, b@) && before(b@, a@)),
            !before(a@, a@),
        decreases x.len() - i,
    {
        let c: char = x[i];
        let d: char = y[i];
        if c < d {
            return Rank::Earlier;
        }
        if d < c {
            return Rank::Later;
        }
        proof {
            assert(a@.skip(i as int).skip(1) =~= a@.skip(i + 1));
            assert(b@.skip(i as int).skip(1) =~= b@.skip(i + 1));
        }
        i += 1;
    }
    if i < y.len() {
        Rank::Earlier
    } else if i < x.len() {
        Rank::Later
    } else {
        assert(a@ =~= b@);
        Rank::Same
    }
}

/// The names of entries come one before the other.
pub open spec fn ascending(entries: Seq<(String, Capsule)>) -> bool {
    forall|i: int, j: int|
        0 <= i < j < entries.len() ==> before(#[trigger] entries[i].0@, #[trigger] entries[j].0@)
}

/// A name is among entries.
pub open spec fn listed(entries: Seq<(String, Capsule)>, name: Seq<char>) -> bool {
    exists|i: int| 0 <= i < entries.len() && #[trigger] entries[i].0@ == name
}

/// The position of a name among entries.
pub open spec fn position(entries: Seq<(String, Capsule)>, name: Seq<char>) -> int {
    choose|i: int| 0 <= i < entries.len() && #[trigger] entries[i].0@ == name
}

/// What entries say, by name.
pub open spec fn records(entries: Seq<(String, Capsule)>) -> Map<Seq<char>, CapsuleView> {
    Map::new(
        |n: Seq<char>| listed(entries, n),
        |n: Seq<char>| entries[position(entries, n)].1@,
    )
}

/// The ledger: records by name, in the order of the names.
#[derive(Debug)]
pub struct State {
    capsules: Vec<(String, Capsule)>,
}

impl View for State {
    type V = Map<Seq<char>, CapsuleView>;

    closed spec fn view(&self) -> Map<Seq<char>, CapsuleView> {
        records(self.capsules@)
    }
}

proof fn lemma_position(entries: Seq<(String, Capsule)>, i: int)
    requires
        ascending(entries),
        0 <= i < entries.len(),
    ensures
        listed(entries, entries[i].0@),
        position(entries, entries[i].0@) == i,
        records(entries).dom().contains(entries[i].0@),
        records(entries)[entries[i].0@] == entries[i].1@,
{
    let n = entries[i].0@;
    assert(listed(entries, n));
    let p = position(entries, n);
    assert(entries[p].0@ == n);
    lemma_before_irreflexive(n);
    if p < i {
        assert(before(entries[p].0@, entries[i].0@));
    } else if i < p {
        assert(before(entries[i].0@, entries[p].0@));
    }
}

/// Entries that say the same of the same names are the same records.
proof fn lemma_same_records(a: Seq<(String, Capsule)>, b: Seq<(String, Capsule)>)
    requires
        ascending(a),
        a.len() == b.len(),
        forall|k: int|
            0 <= k < a.len() ==> #[trigger] b[k].0@ == a[k].0@ && b[k].1@ == a[k].1@,
    ensures
        ascending(b),
        records(b) == records(a),
{
    assert forall|i: int, j: int| 0 <= i < j < b.len() implies before(
        #[trigger] b[i].0@,
        #[trigger] b[j].0@,
    ) by {
        assert(before(a[i].0@, a[j].0@));
    }
    assert forall|n: Seq<char>| #[trigger] records(b).dom().contains(n) == records(
        a,
    ).dom().contains(n) by {
        if listed(b, n) {
            assert(a[position(b, n)].0@ == n);
        }
        if listed(a, n) {
            assert(b[position(a, n)].0@ == n);
        }
    }
    assert forall|n: Seq<char>| records(b).dom().contains(n) implies #[trigger] records(b)[n]
        == records(a)[n] by {
        let p = position(b, n);
        assert(b[p].0@ == n);
        lemma_position(a, p);
    }
    assert(records(b) =~= records(a));
}

/// The records with one more, or one replaced.
proof fn lemma_put(
    old_entries: Seq<(String, Capsule)>,
    new_entries: Seq<(String, Capsule)>,
    k: int,
    name: Seq<char>,
    replaced: bool,
)
    requires
        ascending(old_entries),
        0 <= k <= old_entries.len(),
        forall|i: int| 0 <= i < k ==> before(#[trigger] old_entries[i].0@, name),
        replaced ==> k < old_entries.len() && old_entries[k].0@ == name,
        !replaced ==> forall|i: int|
            k <= i < old_entries.len() ==> before(name, #[trigger] old_entries[i].0@),
        new_entries.len() == old_entries.len() + (if replaced {
            0int
        } else {
            1int
        }),
        forall|i: int| 0 <= i < k ==> #[trigger] new_entries[i] == old_entries[i],
        new_entries[k].0@ == name,
        forall|i: int|
            k < i < new_entries.len() ==> #[trigger] new_entries[i] == old_entries[i - (if replaced {
                0int
            } else {
                1int
            })],
    ensures
        ascending(new_entries),
        records(new_entries) == records(old_entries).insert(name, new_entries[k].1@),
{
    let shift = if replaced {
        0int
    } else {
        1int
    };
    assert forall|i: int, j: int| 0 <= i < j < new_entries.len() implies before(
        #[trigger] new_entries[i].0@,
        #[trigger] new_entries[j].0@,
    ) by {
        if j < k {
            assert(before(old_entries[i].0@, old_entries[j].0@));
        } else if i > k {
            assert(before(old_entries[i - shift].0@, old_entries[j - shift].0@));
        } else if i == k {
            if replaced {
                assert(before(old_entries[k].0@, old_entries[j].0@));
            } else {
                assert(before(name, old_entries[j - 1].0@));
            }
        } else if j == k {
            assert(before(old_entries[i].0@, name));
        } else {
            assert(before(old_entries[i].0@, name));
            if replaced {
                assert(before(old_entries[k].0@, old_entries[j].0@));
                lemma_before_transitive(old_entries[i].0@, name, old_entries[j].0@);
            } else {
                assert(before(name, old_entries[j - 1].0@));
                lemma_before_transitive(old_entries[i].0@, name, old_entries[j - 1].0@);
            }
        }
    }
    let want = records(old_entries).insert(name, new_entries[k].1@);
    lemma_position(new_entries, k);
    assert forall|n: Seq<char>| #[trigger] records(new_entries).dom().contains(n) == want.dom().contains(
        n,
    ) by {
        if listed(new_entries, n) && n != name {
            let p = position(new_entries, n);
            if p < k {
                assert(old_entries[p].0@ == n);
            } else {
                assert(old_entries[p - shift].0@ == n);
            }
        }
        if listed(old_entries, n) && n != name {
            let p = position(old_entries, n);
            if p < k {
                assert(new_entries[p].0@ == n);
            } else {
                assert(new_entries[p + shift].0@ == n);
            }
        }
    }
    assert forall|n: Seq<char>| records(new_entries).dom().contains(n) implies
        #[trigger] records(new_entries)[n] == want[n] by {
        let p = position(new_entries, n);
        assert(new_entries[p].0@ == n);
        if n != name {
            if p < k {
                lemma_position(old_entries, p);
            } else {
                lemma_position(old_entries, p - shift);
            }
        }
    }
    assert(records(new_entries) =~= want);
}

impl State {
    /// The names come one before the other.
    #[verifier::type_invariant]
    spec fn in_order(&self) -> bool {
        ascending(self.capsules@)
    }

    /// A ledger without records.
    pub fn new() -> (r: State)
        ensures
            r@ == Map::<Seq<char>, CapsuleView>::empty(),
    {
        let r = State { capsules: Vec::new() };
        assert(records(r.capsules@) =~= Map::<Seq<char>, CapsuleView>::empty());
        r
    }

    /// The file that holds the ledger.
    pub fn path(set: Option<&str>, home: bool) -> (r: Result<Place, String>)
        ensures
            match own_dir(opt_str(set), home) {
                Some(d) => r matches Ok(p) && p@ == inside(d, "state.json"@),
                None => r matches Err(e) && e@
                    == "could not resolve home directory for ~/.hellbox"@,
            },
    {
        own_file(set, home, "state.json")
    }

    /// The first position whose name is not before `name`.
    fn lower_bound(&self, name: &str) -> (k: usize)
        ensures
            k <= self.capsules@.len(),
            forall|i: int| 0 <= i < k ==> before(#[trigger] self.capsules@[i].0@, name@),
            k < self.capsules@.len() && self.capsules@[k as int].0@ != name@ ==> forall|i: int|
                k <= i < self.capsules@.len() ==> before(name@, #[trigger] self.capsules@[i].0@),
    {
        proof {
            use_type_invariant(self);
        }
        let n: usize = self.capsules.len();
        let mut k: usize = 0;
        while k < n
            invariant
                ascending(self.capsules@),
                n == self.capsules@.len(),
                k <= n,
                forall|i: int| 0 <= i < k ==> before(#[trigger] self.capsules@[i].0@, name@),
            decreases n - k,
        {
            match rank(self.capsules[k].0.as_str(), name) {
                Rank::Earlier => {},
                Rank::Same => {
                    return k;
                },
                Rank::Later => {
                    proof {
                        assert forall|i: int| k <= i < self.capsules@.len() implies before(
                            name@,
                            #[trigger] self.capsules@[i].0@,
                        ) by {
                            if i > k {
                                assert(before(
                                    self.capsules@[k as int].0@,
                                    self.capsules@[i].0@,
                                ));
                                lemma_before_transitive(
                                    name@,
                                    self.capsules@[k as int].0@,
                                    self.capsules@[i].0@,
                                );
                            }
                        }
                    }
                    return k;
                },
            }
            k += 1;
        }
        k
    }

    /// Whether the name at `k` is `name`.
    fn found(&self, k: usize, name: &str) -> (r: bool)
        ensures
            r == (k < self.capsules@.len() && self.capsules@[k as int].0@ == name@),
    {
        k < self.capsules.len() && crate::text::same(self.capsules[k].0.as_str(), name)
    }

    /// What is known of a capsule.
    pub fn get(&self, name: &str) -> (r: Option<&Capsule>)
        ensures
            match r {
                Some(c) => self@.dom().contains(name@) && c@ == self@[name@],
                None => !self@.dom().contains(name@),
            },
    {
        proof {
            use_type_invariant(self);
        }
        let k: usize = self.lower_bound(name);
        if self.found(k, name) {
            proof {
                lemma_position(self.capsules@, k as int);
            }
            Some(&self.capsules[k].1)
        } else {
            proof {
                lemma_before_irreflexive(name@);
                assert(!listed(self.capsules@, name@));
            }
            None
        }
    }

    /// What is known of a capsule, or what to do where nothing is.
    pub fn require(&self, name: &str) -> (r: Result<&Capsule, String>)
        ensures
            match r {
                Ok(c) => self@.dom().contains(name@) && c@ == self@[name@],
                Err(e) => !self@.dom().contains(name@) && e@ == "no capsule named '"@ + name@
                    + "' in state — run `hellbox build --name "@ + name@ + "` first"@,
            },
    {
        match self.get(name) {
            Some(c) => Ok(c),
            None => {
                let mut e = "no capsule named '".to_owned();
                e.append(name);
                e.append("' in state — run `hellbox build --name ");
                e.append(name);
                e.append("` first");
                Err(e)
            },
        }
    }

    /// A copy of what is known of a capsule, blank where nothing is.
    pub fn record(&self, name: &str) -> (r: Capsule)
        ensures
            r@ == known(self@, name@),
    {
        match self.get(name) {
            Some(c) => c.clone(),
            None => Capsule::default(),
        }
    }

    /// Replaces the record of a capsule, or adds it.
    pub fn put(&mut self, name: &str, capsule: Capsule)
        ensures
            final(self)@ == old(self)@.insert(name@, capsule@),
    {
        proof {
            use_type_invariant(&*self);
        }
        let ghost was = self.capsules@;
        let k: usize = self.lower_bound(name);
        let replaced = self.found(k, name);
        let mut entries: Vec<(String, Capsule)> = Vec::new();
        std::mem::swap(&mut entries, &mut self.capsules);
        if replaced {
            entries.set(k, (name.to_owned(), capsule));
        } else {
            entries.insert(k, (name.to_owned(), capsule));
        }
        proof {
            lemma_put(was, entries@, k as int, name@, replaced);
        }
        self.capsules = entries;
    }

    /// Applies a change to the record of a capsule, which is blank where there was none.
    pub fn upsert<F: FnOnce(Capsule) -> Capsule>(&mut self, name: &str, f: F)
        requires
            forall|c: Capsule| f.requires((c,)),
        ensures
            exists|c: Capsule, out: Capsule|
                c@ == known(old(self)@, name@) && #[trigger] f.ensures((c,), out) && final(self)@
                    == old(self)@.insert(name@, out@),
    {
        let c = self.record(name);
        let ghost was = c;
        let out = f(c);
        let ghost now = out;
        self.put(name, out);
        assert(f.ensures((was,), now));
    }

    /// Drops a capsule.
    pub fn remove(&mut self, name: &str)
        ensures
            final(self)@ == old(self)@.remove(name@),
    {
        proof {
            use_type_invariant(&*self);
        }
        let ghost was = self.capsules@;
        let k: usize = self.lower_bound(name);
        if self.found(k, name) {
            let mut entries: Vec<(String, Capsule)> = Vec::new();
            std::mem::swap(&mut entries, &mut self.capsules);
            entries.remove(k);
            proof {
                lemma_removed(was, entries@, k as int);
            }
            self.capsules = entries;
        } else {
            proof {
                lemma_before_irreflexive(name@);
                assert(!listed(was, name@));
                assert(records(was) =~= records(was).remove(name@));
            }
        }
    }

    /// The names, in order.
    pub fn names(&self) -> (r: Vec<String>)
        ensures
            owned_texts(r@) == self.ordered_names(),
            owned_texts(r@).to_set() == self@.dom(),
            forall|i: int, j: int|
                0 <= i < j < r@.len() ==> before(#[trigger] r@[i]@, #[trigger] r@[j]@),
    {
        let n: usize = self.capsules.len();
        let mut r: Vec<String> = Vec::new();
        let mut i: usize = 0;
        while i < n
            invariant
                n == self.capsules@.len(),
                i <= n,
                r@.len() == i,
                forall|k: int| 0 <= k < i ==> #[trigger] r@[k]@ == self.capsules@[k].0@,
            decreases n - i,
        {
            r.push(self.capsules[i].0.as_str().to_owned());
            i += 1;
        }
        proof {
            use_type_invariant(self);
            assert(owned_texts(r@) =~= self.ordered_names());
            assert forall|x: Seq<char>| #[trigger] owned_texts(r@).to_set().contains(x)
                == self@.dom().contains(x) by {
                if owned_texts(r@).contains(x) {
                    let k = choose|k: int|
                        0 <= k < owned_texts(r@).len() && owned_texts(r@)[k] == x;
                    assert(self.capsules@[k].0@ == x);
                    assert(listed(self.capsules@, x));
                }
                if listed(self.capsules@, x) {
                    let k = position(self.capsules@, x);
                    assert(owned_texts(r@)[k] == x);
                }
            }
            assert(owned_texts(r@).to_set() =~= self@.dom());
            assert forall|a: int, b: int| 0 <= a < b < r@.len() implies before(
                #[trigger] r@[a]@,
                #[trigger] r@[b]@,
            ) by {
                assert(before(self.capsules@[a].0@, self.capsules@[b].0@));
            }
        }
        r
    }

    /// The names, in order.
    pub closed spec fn ordered_names(&self) -> Seq<Seq<char>> {
        Seq::new(self.capsules@.len(), |i: int| self.capsules@[i].0@)
    }

    /// Whether there are no records.
    pub fn is_empty(&self) -> (r: bool)
        ensures
            r == (self@.dom() == Set::<Seq<char>>::empty()),
    {
        let none = self.capsules.len() == 0;
        proof {
            use_type_invariant(self);
            if none {
                assert(self@.dom() =~= Set::<Seq<char>>::empty());
            } else {
                lemma_position(self.capsules@, 0);
            }
        }
        none
    }

    /// A ledger of these records; of several for one name the last one counts.
    pub fn from_entries(entries: Vec<(String, Capsule)>) -> (r: State)
        ensures
            r@ == listed_records(entries@),
    {
        let mut state = State::new();
        let n: usize = entries.len();
        let mut i: usize = 0;
        assert(entries@.take(0) =~= Seq::<(String, Capsule)>::empty());
        while i < n
            invariant
                n == entries@.len(),
                i <= n,
                state@ == listed_records(entries@.take(i as int)),
            decreases n - i,
        {
            assert(entries@.take(i + 1).drop_last() =~= entries@.take(i as int));
            state.put(entries[i].0.as_str(), entries[i].1.clone());
            i += 1;
        }
        assert(entries@.take(n as int) =~= entries@);
        state
    }
}

impl Clone for State {
    fn clone(&self) -> (r: State)
        ensures
            r@ == self@,
    {
        proof {
            use_type_invariant(self);
        }
        let n: usize = self.capsules.len();
        let mut capsules: Vec<(String, Capsule)> = Vec::new();
        let mut i: usize = 0;
        while i < n
            invariant
                n == self.capsules@.len(),
                i <= n,
                capsules@.len() == i,
                forall|k: int|
                    0 <= k < i ==> #[trigger] capsules@[k].0@ == self.capsules@[k].0@
                        && capsules@[k].1@ == self.capsules@[k].1@,
            decreases n - i,
        {
            capsules.push((self.capsules[i].0.as_str().to_owned(), self.capsules[i].1.clone()));
            i += 1;
        }
        proof {
            lemma_same_records(self.capsules@, capsules@);
        }
        State { capsules }
    }
}

impl Default for State {
    fn default() -> (r: State)
        ensures
            r@ == Map::<Seq<char>, CapsuleView>::empty(),
    {
        State::new()
    }
}

/// The records that a list of entries comes to, the later before the earlier.
pub open spec fn listed_records(entries: Seq<(String, Capsule)>) -> Map<Seq<char>, CapsuleView>
    decreases entries.len(),
{
    if entries.len() == 0 {
        Map::empty()
    } else {
        listed_records(entries.drop_last()).insert(entries.last().0@, entries.last().1@)
    }
}

/// What is known of a capsule, blank where nothing is.
pub open spec fn known(records: Map<Seq<char>, CapsuleView>, name: Seq<char>) -> CapsuleView {
    if records.dom().contains(name) {
        records[name]
    } else {
        blank()
    }
}

proof fn lemma_removed(
    was: Seq<(String, Capsule)>,
    now: Seq<(String, Capsule)>,
    k: int,
)
    requires
        ascending(was),
        0 <= k < was.len(),
        now == was.remove(k),
    ensures
        ascending(now),
        records(now) == records(was).remove(was[k].0@),
{
    let name = was[k].0@;
    lemma_before_irreflexive(name);
    assert forall|i: int, j: int| 0 <= i < j < now.len() implies before(
        #[trigger] now[i].0@,
        #[trigger] now[j].0@,
    ) by {
        let a = if i < k {
            i
        } else {
            i + 1
        };
        let b = if j < k {
            j
        } else {
            j + 1
        };
        assert(before(was[a].0@, was[b].0@));
    }
    assert forall|n: Seq<char>| #[trigger] records(now).dom().contains(n) == records(was).remove(
        name,
    ).dom().contains(n) by {
        if listed(now, n) {
            let p = position(now, n);
            let q = if p < k {
                p
            } else {
                p + 1
            };
            assert(was[q].0@ == n);
            if n == name {
                lemma_position(was, q);
                lemma_position(was, k);
            }
        }
        if listed(was, n) && n != name {
            let p = position(was, n);
            let q = if p < k {
                p
            } else {
                p - 1
            };
            assert(now[q].0@ == n);
        }
    }
    assert forall|n: Seq<char>| records(now).dom().contains(n) implies #[trigger] records(now)[n]
        == records(was).remove(name)[n] by {
        let p = position(now, n);
        assert(now[p].0@ == n);
        lemma_position(
            was,
            if p < k {
                p
            } else {
                p + 1
            },
        );
    }
    assert(records(now) =~= records(was).remove(name));
}

/// A change to one capsule leaves every other as it was.
pub proof fn law_changes_are_local(
    records: Map<Seq<char>, CapsuleView>,
    name: Seq<char>,
    other: Seq<char>,
    capsule: CapsuleView,
)
    requires
        name != other,
    ensures
        known(records.insert(name, capsule), other) == known(records, other),
        known(records.remove(name), other) == known(records, other),
        known(records.insert(name, capsule), name) == capsule,
        known(records.remove(name), name) == blank(),
{
}

/// Nothing is known of a capsule that is not in the ledger, and all that was recorded of one
/// that is.
pub proof fn law_records_are_told(records: Map<Seq<char>, CapsuleView>, name: Seq<char>)
    ensures
        ({
            let c = known(records, name);
            &&& records.dom().contains(name) ==> c == records[name]
            &&& !records.dom().contains(name) ==> c.image_arn is None && c.image_version is None
                && c.microvm_id is None && c.endpoint is None && c.state is None
        }),
{
}

/// Of two names that begin alike, the one with the smaller character where they part comes
/// first, and a name comes before every longer one that begins with it.
pub proof fn law_names_are_sorted(
    common: Seq<char>,
    x: char,
    y: char,
    rest: Seq<char>,
    other: Seq<char>,
)
    ensures
        x < y ==> before(common + seq![x] + rest, common + seq![y] + other),
        y < x ==> !before(common + seq![x] + rest, common + seq![y] + other),
        before(common, common + seq![x] + rest),
        !before(common + seq![x] + rest, common),
    decreases common.len(),
{
    let a = common + seq![x] + rest;
    let b = common + seq![y] + other;
    if common.len() == 0 {
        assert(a[0] == x && b[0] == y);
    } else {
        let shorter = common.skip(1);
        law_names_are_sorted(shorter, x, y, rest, other);
        assert(a.skip(1) =~= shorter + seq![x] + rest);
        assert(b.skip(1) =~= shorter + seq![y] + other);
        assert(a[0] == common[0] && b[0] == common[0]);
    }
}

/// A ledger made from a list has exactly the names in it, and of several records for one name
/// it has the last.
pub proof fn law_last_entry_counts(entries: Seq<(String, Capsule)>, i: int)
    requires
        0 <= i < entries.len(),
        forall|k: int| i < k < entries.len() ==> (#[trigger] entries[k]).0@ != entries[i].0@,
    ensures
        listed_records(entries).dom().contains(entries[i].0@),
        listed_records(entries)[entries[i].0@] == entries[i].1@,
        forall|n: Seq<char>| #[trigger]
            listed_records(entries).dom().contains(n) ==> listed(entries, n),
    decreases entries.len(),
{
    let fewer = entries.drop_last();
    if i < fewer.len() {
        assert(fewer[i] == entries[i]);
        assert forall|k: int| i < k < fewer.len() implies (#[trigger] fewer[k]).0@
            != fewer[i].0@ by {
            assert(fewer[k] == entries[k]);
        }
        assert(entries.last() == entries[entries.len() - 1]);
        law_last_entry_counts(fewer, i);
    } else {
        lemma_listed(fewer);
    }
    lemma_listed(entries);
}

proof fn lemma_listed(entries: Seq<(String, Capsule)>)
    ensures
        forall|n: Seq<char>| #[trigger]
            listed_records(entries).dom().contains(n) ==> listed(entries, n),
    decreases entries.len(),
{
    if entries.len() > 0 {
        let fewer = entries.drop_last();
        lemma_listed(fewer);
        assert forall|n: Seq<char>| #[trigger]
            listed_records(entries).dom().contains(n) implies listed(entries, n) by {
            if n == entries.last().0@ {
                assert(entries[entries.len() - 1].0@ == n);
            } else {
                assert(listed_records(fewer).dom().contains(n));
                assert(listed(fewer, n));
                let p = position(fewer, n);
                assert(fewer[p].0@ == n);
                assert(entries[p].0@ == n);
            }
        }
    }
}

/// What is recorded is found under its name and nowhere else, and asking for it as required
/// says so by name where it is not there.
pub proof fn law_records_are_found(
    s: &State,
    name: &str,
    got: Option<&Capsule>,
    required: Result<&Capsule, String>,
)
    requires
        call_ensures(State::get, (s, name), got),
        call_ensures(State::require, (s, name), required),
    ensures
        got is Some <==> s@.dom().contains(name@),
        required is Ok <==> s@.dom().contains(name@),
        got is Some ==> got->0@ == s@[name@] && required->Ok_0@ == s@[name@],
        required matches Err(e) ==> e@.len() > name@.len(),
{
    reveal_strlit("no capsule named '");
}

} // verus!
