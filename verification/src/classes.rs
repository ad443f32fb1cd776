//! The class registry and loader state machine.
//!
//! Externally defined UI classes are fetched from module sources.  Each
//! source runs through the states unrequested, pending, loaded; a pending or
//! loaded source is never fetched again, so any number of concurrent
//! requests for one source cost exactly one fetch.  Completed classes are
//! registered by name and addressed through copyable handles that are never
//! reused.

use vstd::prelude::*;
use crate::error::DivError;
use crate::kvtable::{kv_map, keys_unique, lemma_kv_map_contains, lemma_kv_map_index,
    lemma_kv_map_push, lemma_kv_map_remove, lemma_kv_map_update};

verus! {

/// An opaque, copyable identifier of one loaded class.
#[derive(Debug, Clone, Copy, PartialEq, Eq, Hash, Structural)]
pub struct JsClassHandle(pub u64);

/// What a load request decides: fetch the source now, wait for the fetch an
/// earlier request started, or take the classes already loaded from it.
#[derive(Debug, Clone, Copy, PartialEq, Eq, Structural)]
pub enum LoadAction {
    StartFetch,
    AwaitPending,
    Ready,
}

/// The recorded state of one source: a fetch in flight, with every name
/// requested from it so far, or a completed fetch.
pub enum SrcEntry {
    Pending(Vec<String>),
    Done,
}

/// The mathematical image of a [`SrcEntry`].
pub ghost enum SrcRec {
    Pending { names: Seq<Seq<char>> },
    Done,
}

impl View for SrcEntry {
    type V = SrcRec;

    open spec fn view(&self) -> SrcRec {
        match self {
            SrcEntry::Pending(v) => SrcRec::Pending { names: names_view(v@) },
            SrcEntry::Done => SrcRec::Done,
        }
    }
}

/// The views of a sequence of strings.
pub open spec fn names_view(s: Seq<String>) -> Seq<Seq<char>> {
    s.map_values(|x: String| x@)
}

/// Registers one name: an already known name keeps its handle, a new one
/// gets the next handle.
pub open spec fn register_one(loaded: Map<Seq<char>, u64>, next: u64, name: Seq<char>) -> (
    Map<Seq<char>, u64>,
    u64,
) {
    if loaded.contains_key(name) {
        (loaded, next)
    } else {
        (loaded.insert(name, next), (next + 1) as u64)
    }
}

/// Registers, in order, every requested name that the module exports.
pub open spec fn register_all(
    loaded: Map<Seq<char>, u64>,
    next: u64,
    names: Seq<Seq<char>>,
    exported: Seq<Seq<char>>,
) -> (Map<Seq<char>, u64>, u64)
    decreases names.len(),
{
    if names.len() == 0 {
        (loaded, next)
    } else {
        let prev = register_all(loaded, next, names.drop_last(), exported);
        if exported.contains(names.last()) {
            register_one(prev.0, prev.1, names.last())
        } else {
            prev
        }
    }
}

/// Registration allocates at most one handle per requested name.
pub proof fn lemma_register_all_bounds(
    loaded: Map<Seq<char>, u64>,
    next: u64,
    names: Seq<Seq<char>>,
    exported: Seq<Seq<char>>,
)
    requires
        next + names.len() <= u64::MAX,
    ensures
        next <= register_all(loaded, next, names, exported).1 <= next + names.len(),
    decreases names.len(),
{
    if names.len() > 0 {
        lemma_register_all_bounds(loaded, next, names.drop_last(), exported);
    }
}

/// What a load request does to the source table: a new source becomes
/// pending with the requested names, a pending one also remembers the new
/// names, a loaded one is left alone.
pub open spec fn begin_load_spec(
    sources: Map<Seq<char>, SrcRec>,
    names: Seq<Seq<char>>,
    src: Seq<char>,
) -> Map<Seq<char>, SrcRec> {
    if !sources.contains_key(src) {
        sources.insert(src, SrcRec::Pending { names })
    } else {
        match sources[src] {
            SrcRec::Pending { names: have } => sources.insert(
                src,
                SrcRec::Pending { names: have + names },
            ),
            SrcRec::Done => sources,
        }
    }
}

/// The action a load request takes, given the source table.
pub open spec fn load_decision(sources: Map<Seq<char>, SrcRec>, src: Seq<char>) -> LoadAction {
    if !sources.contains_key(src) {
        LoadAction::StartFetch
    } else {
        match sources[src] {
            SrcRec::Pending { .. } => LoadAction::AwaitPending,
            SrcRec::Done => LoadAction::Ready,
        }
    }
}

/// Copies a list of names.
fn clone_names(v: &Vec<String>) -> (r: Vec<String>)
    ensures
        names_view(r@) == names_view(v@),
{
    let mut r: Vec<String> = Vec::new();
    let n = v.len();
    let mut i: usize = 0;
    while i < n
        invariant
            n == v.len(),
            i <= n,
            names_view(r@) =~= names_view(v@.take(i as int)),
        decreases n - i,
    {
        let ghost before = r@;
        r.push(v[i].clone());
        proof {
            assert(names_view(r@) =~= names_view(before).push(v@[i as int]@));
            assert(names_view(v@.take(i + 1)) =~= names_view(v@.take(i as int)).push(
                v@[i as int]@,
            ));
        }
        i += 1;
    }
    proof {
        assert(v@.take(n as int) =~= v@);
    }
    r
}

/// Appends copies of the given names to a list.
fn append_names(dst: &mut Vec<String>, more: &Vec<String>)
    ensures
        names_view(final(dst)@) == names_view(old(dst)@) + names_view(more@),
{
    let n = more.len();
    let mut i: usize = 0;
    while i < n
        invariant
            n == more.len(),
            i <= n,
            names_view(dst@) =~= names_view(old(dst)@) + names_view(more@.take(i as int)),
        decreases n - i,
    {
        let ghost before = dst@;
        dst.push(more[i].clone());
        proof {
            assert(names_view(dst@) =~= names_view(before).push(more@[i as int]@));
            assert(names_view(more@.take(i + 1)) =~= names_view(more@.take(i as int)).push(
                more@[i as int]@,
            ));
        }
        i += 1;
    }
    proof {
        assert(more@.take(n as int) =~= more@);
    }
}

/// Whether a name occurs in a list of names.
fn contains_name(v: &Vec<String>, name: &String) -> (r: bool)
    ensures
        r == names_view(v@).contains(name@),
{
    let n = v.len();
    let mut i: usize = 0;
    while i < n
        invariant
            n == v.len(),
            i <= n,
            forall|j: int| 0 <= j < i ==> names_view(v@)[j] != name@,
        decreases n - i,
    {
        if v[i] == *name {
            assert(names_view(v@)[i as int] == name@);
            return true;
        }
        i += 1;
    }
    assert(forall|j: int| 0 <= j < names_view(v@).len() ==> names_view(v@)[j] != name@);
    false
}

/// A loaded class as the registry records it: its handle and the name it
/// was registered under.
#[derive(Debug, Clone, PartialEq, Eq)]
pub struct JsClass {
    pub handle: JsClassHandle,
    pub name: String,
}

/// The registry: completed classes by name, the next class handle, and the
/// per-source load state.
pub struct JsClassStorage {
    loaded: Vec<(String, u64)>,
    next: u64,
    sources: Vec<(String, SrcEntry)>,
}

impl JsClassStorage {
    /// The name/handle pairs of the completed classes.
    pub closed spec fn loaded_pairs(&self) -> Seq<(Seq<char>, u64)> {
        self.loaded@.map_values(|e: (String, u64)| (e.0@, e.1))
    }

    /// The name-to-handle map of the completed classes.
    pub closed spec fn loaded_map(&self) -> Map<Seq<char>, u64> {
        kv_map(self.loaded_pairs())
    }

    /// The next class handle to be issued.
    pub closed spec fn next_class(&self) -> u64 {
        self.next
    }

    /// The source/state pairs of the load table.
    pub closed spec fn src_pairs(&self) -> Seq<(Seq<char>, SrcRec)> {
        self.sources@.map_values(|e: (String, SrcEntry)| (e.0@, e.1@))
    }

    /// The source-to-state map of the load table.
    pub closed spec fn src_map(&self) -> Map<Seq<char>, SrcRec> {
        kv_map(self.src_pairs())
    }

    /// Well-formedness: names and sources are distinct; handles are
    /// distinct and all below `next`.
    pub closed spec fn wf(&self) -> bool {
        &&& keys_unique(self.loaded_pairs())
        &&& keys_unique(self.src_pairs())
        &&& forall|i: int| 0 <= i < self.loaded_pairs().len() ==> (
            #[trigger] self.loaded_pairs()[i]).1 < self.next
        &&& forall|i: int, j: int|
            0 <= i < j < self.loaded_pairs().len() ==> self.loaded_pairs()[i].1
                != self.loaded_pairs()[j].1
    }

    /// The handle the next registration will issue.
    pub fn next(&self) -> (r: u64)
        ensures
            r == self.next_class(),
    {
        self.next
    }

    /// Every issued class handle lies below the allocation counter.
    pub proof fn lemma_bounded(&self)
        requires
            self.wf(),
        ensures
            forall|n: Seq<char>| #[trigger] self.loaded_map().contains_key(n)
                ==> self.loaded_map()[n] < self.next_class(),
    {
        assert forall|n: Seq<char>| #[trigger] self.loaded_map().contains_key(n) implies self
            .loaded_map()[n] < self.next_class() by {
            lemma_kv_map_contains(self.loaded_pairs(), n);
            let i = choose|i: int|
                0 <= i < self.loaded_pairs().len() && self.loaded_pairs()[i].0 == n;
            lemma_kv_map_index(self.loaded_pairs(), i);
        }
    }

    /// An empty registry.
    pub fn empty() -> (r: Self)
        ensures
            r.wf(),
            r.loaded_map() == Map::<Seq<char>, u64>::empty(),
            r.src_map() == Map::<Seq<char>, SrcRec>::empty(),
            r.next_class() == 0,
    {
        let r = JsClassStorage { loaded: Vec::new(), next: 0, sources: Vec::new() };
        proof {
            assert(r.loaded_pairs() =~= Seq::<(Seq<char>, u64)>::empty());
            assert(r.src_pairs() =~= Seq::<(Seq<char>, SrcRec)>::empty());
        }
        r
    }

    /// The index of a name among the completed classes.
    fn find_loaded(&self, name: &String) -> (r: Option<usize>)
        requires
            self.wf(),
        ensures
            match r {
                Some(i) => i < self.loaded_pairs().len() && self.loaded_pairs()[i as int].0
                    == name@ && self.loaded_map().contains_key(name@) && self.loaded_map()[name@]
                    == self.loaded_pairs()[i as int].1,
                None => !self.loaded_map().contains_key(name@),
            },
    {
        let n = self.loaded.len();
        let mut i: usize = 0;
        while i < n
            invariant
                n == self.loaded.len(),
                i <= n,
                self.wf(),
                forall|j: int| 0 <= j < i ==> (#[trigger] self.loaded_pairs()[j]).0 != name@,
            decreases n - i,
        {
            if self.loaded[i].0 == *name {
                proof {
                    lemma_kv_map_index(self.loaded_pairs(), i as int);
                }
                return Some(i);
            }
            i += 1;
        }
        proof {
            lemma_kv_map_contains(self.loaded_pairs(), name@);
        }
        None
    }

    /// The index of a source in the load table.
    fn find_source(&self, src: &String) -> (r: Option<usize>)
        requires
            self.wf(),
        ensures
            match r {
                Some(i) => i < self.src_pairs().len() && self.src_pairs()[i as int].0 == src@
                    && self.src_map().contains_key(src@) && self.src_map()[src@]
                    == self.src_pairs()[i as int].1,
                None => !self.src_map().contains_key(src@),
            },
    {
        let n = self.sources.len();
        let mut i: usize = 0;
        while i < n
            invariant
                n == self.sources.len(),
                i <= n,
                self.wf(),
                forall|j: int| 0 <= j < i ==> (#[trigger] self.src_pairs()[j]).0 != src@,
            decreases n - i,
        {
            if self.sources[i].0 == *src {
                proof {
                    lemma_kv_map_index(self.src_pairs(), i as int);
                }
                return Some(i);
            }
            i += 1;
        }
        proof {
            lemma_kv_map_contains(self.src_pairs(), src@);
        }
        None
    }

    /// The handle of a completed class, if the name has one.
    pub fn preloaded(&self, name: &String) -> (r: Option<JsClassHandle>)
        requires
            self.wf(),
        ensures
            r == if self.loaded_map().contains_key(name@) {
                Some(JsClassHandle(self.loaded_map()[name@]))
            } else {
                None::<JsClassHandle>
            },
    {
        match self.find_loaded(name) {
            Some(i) => Some(JsClassHandle(self.loaded[i].1)),
            None => None,
        }
    }

    /// Whether a handle was ever issued for some class.
    pub fn handle_known(&self, h: u64) -> (r: bool)
        requires
            self.wf(),
        ensures
            r == exists|n: Seq<char>|
                #[trigger] self.loaded_map().contains_key(n) && self.loaded_map()[n] == h,
    {
        let n = self.loaded.len();
        let mut i: usize = 0;
        while i < n
            invariant
                n == self.loaded.len(),
                i <= n,
                self.wf(),
                forall|j: int| 0 <= j < i ==> (#[trigger] self.loaded_pairs()[j]).1 != h,
            decreases n - i,
        {
            if self.loaded[i].1 == h {
                proof {
                    lemma_kv_map_index(self.loaded_pairs(), i as int);
                    assert(self.loaded_map().contains_key(self.loaded_pairs()[i as int].0)
                        && self.loaded_map()[self.loaded_pairs()[i as int].0] == h);
                }
                return true;
            }
            i += 1;
        }
        proof {
            if exists|nm: Seq<char>|
                #[trigger] self.loaded_map().contains_key(nm) && self.loaded_map()[nm] == h {
                let nm = choose|nm: Seq<char>|
                    #[trigger] self.loaded_map().contains_key(nm) && self.loaded_map()[nm] == h;
                lemma_kv_map_contains(self.loaded_pairs(), nm);
                let i = choose|i: int|
                    0 <= i < self.loaded_pairs().len() && self.loaded_pairs()[i].0 == nm;
                lemma_kv_map_index(self.loaded_pairs(), i);
            }
        }
        false
    }

    /// The name a handle was issued for, if any.
    pub fn name_of(&self, h: u64) -> (r: Option<&String>)
        requires
            self.wf(),
        ensures
            match r {
                Some(name) => self.loaded_map().contains_key(name@) && self.loaded_map()[name@]
                    == h,
                None => forall|n: Seq<char>|
                    #[trigger] self.loaded_map().contains_key(n) ==> self.loaded_map()[n] != h,
            },
    {
        let n = self.loaded.len();
        let mut i: usize = 0;
        while i < n
            invariant
                n == self.loaded.len(),
                i <= n,
                self.wf(),
                forall|j: int| 0 <= j < i ==> (#[trigger] self.loaded_pairs()[j]).1 != h,
            decreases n - i,
        {
            if self.loaded[i].1 == h {
                proof {
                    lemma_kv_map_index(self.loaded_pairs(), i as int);
                }
                return Some(&self.loaded[i].0);
            }
            i += 1;
        }
        proof {
            assert forall|nm: Seq<char>|
                #[trigger] self.loaded_map().contains_key(nm) implies self.loaded_map()[nm]
                != h by {
                lemma_kv_map_contains(self.loaded_pairs(), nm);
                let i = choose|i: int|
                    0 <= i < self.loaded_pairs().len() && self.loaded_pairs()[i].0 == nm;
                lemma_kv_map_index(self.loaded_pairs(), i);
            }
        }
        None
    }

    /// Registers one class name, keeping the handle of a name that already
    /// has one, and returns the name's handle.
    pub fn register(&mut self, name: &String) -> (h: u64)
        requires
            old(self).wf(),
            old(self).next_class() < u64::MAX,
        ensures
            final(self).wf(),
            (final(self).loaded_map(), final(self).next_class()) == register_one(
                old(self).loaded_map(),
                old(self).next_class(),
                name@,
            ),
            final(self).src_pairs() == old(self).src_pairs(),
            final(self).src_map() == old(self).src_map(),
            h == final(self).loaded_map()[name@],
            final(self).loaded_map().contains_key(name@),
    {
        let ghost oldpairs = self.loaded_pairs();
        match self.find_loaded(name) {
            Some(i) => self.loaded[i].1,
            None => {
                let h = self.next;
                self.loaded.push((name.clone(), h));
                self.next = h + 1;
                proof {
                    lemma_kv_map_contains(oldpairs, name@);
                    assert(self.loaded_pairs() =~= oldpairs.push((name@, h)));
                    lemma_kv_map_push(oldpairs, name@, h);
                    lemma_kv_map_index(self.loaded_pairs(), self.loaded_pairs().len() - 1);
                }
                h
            },
        }
    }

    /// Records a load request for a source and decides what the requester
    /// must do, without ever fetching a pending or completed source again.
    pub fn begin_load(&mut self, names: &Vec<String>, src: &String) -> (r: LoadAction)
        requires
            old(self).wf(),
        ensures
            final(self).wf(),
            r == load_decision(old(self).src_map(), src@),
            final(self).src_map() == begin_load_spec(old(self).src_map(), names_view(names@), src@),
            final(self).loaded_map() == old(self).loaded_map(),
            final(self).next_class() == old(self).next_class(),
    {
        let ghost oldpairs = self.src_pairs();
        match self.find_source(src) {
            None => {
                let copied = clone_names(names);
                self.sources.push((src.clone(), SrcEntry::Pending(copied)));
                proof {
                    assert(self.src_pairs() =~= oldpairs.push(
                        (src@, SrcRec::Pending { names: names_view(names@) }),
                    ));
                    lemma_kv_map_contains(oldpairs, src@);
                    lemma_kv_map_push(
                        oldpairs,
                        src@,
                        SrcRec::Pending { names: names_view(names@) },
                    );
                }
                LoadAction::StartFetch
            },
            Some(i) => {
                let (key, entry) = self.sources.remove(i);
                match entry {
                    SrcEntry::Done => {
                        self.sources.insert(i, (key, SrcEntry::Done));
                        proof {
                            assert(self.src_pairs() =~= oldpairs);
                        }
                        LoadAction::Ready
                    },
                    SrcEntry::Pending(mut have) => {
                        let ghost had = names_view(have@);
                        append_names(&mut have, names);
                        self.sources.insert(i, (key, SrcEntry::Pending(have)));
                        proof {
                            assert(self.src_pairs() =~= oldpairs.update(
                                i as int,
                                (src@, SrcRec::Pending { names: had + names_view(names@) }),
                            ));
                            lemma_kv_map_update(
                                oldpairs,
                                i as int,
                                SrcRec::Pending { names: had + names_view(names@) },
                            );
                        }
                        LoadAction::AwaitPending
                    },
                }
            },
        }
    }

    /// Completes a pending fetch: every name requested from the source that
    /// the module exports is registered, in request order, and the source
    /// becomes loaded.
    pub fn finish_load(&mut self, src: &String, exported: &Vec<String>)
        requires
            old(self).wf(),
            old(self).src_map().contains_key(src@),
            old(self).src_map()[src@] is Pending,
            old(self).next_class() + old(self).src_map()[src@]->Pending_names.len()
                <= u64::MAX,
        ensures
            final(self).wf(),
            (final(self).loaded_map(), final(self).next_class()) == register_all(
                old(self).loaded_map(),
                old(self).next_class(),
                old(self).src_map()[src@]->Pending_names,
                names_view(exported@),
            ),
            final(self).src_map() == old(self).src_map().insert(src@, SrcRec::Done),
    {
        let ghost oldpairs = self.src_pairs();
        let ghost oldloaded = self.loaded_map();
        let ghost oldnext = self.next_class();
        let ghost pending = old(self).src_map()[src@]->Pending_names;
        let i = match self.find_source(src) {
            Some(i) => i,
            None => {
                proof {
                    assert(false);
                }
                0
            },
        };
        let (key, entry) = self.sources.remove(i);
        let wanted = match entry {
            SrcEntry::Pending(v) => v,
            SrcEntry::Done => {
                proof {
                    assert(false);
                }
                Vec::new()
            },
        };
        proof {
            assert(names_view(wanted@) == pending);
            lemma_kv_map_remove(oldpairs, i as int);
            assert(self.src_pairs() =~= oldpairs.remove(i as int));
        }
        let n = wanted.len();
        let mut k: usize = 0;
        while k < n
            invariant
                n == wanted.len(),
                k <= n,
                self.wf(),
                names_view(wanted@) == pending,
                oldnext + n <= u64::MAX,
                (self.loaded_map(), self.next_class()) == register_all(
                    oldloaded,
                    oldnext,
                    pending.take(k as int),
                    names_view(exported@),
                ),
                self.src_pairs() == oldpairs.remove(i as int),
            decreases n - k,
        {
            proof {
                lemma_register_all_bounds(
                    oldloaded,
                    oldnext,
                    pending.take(k as int),
                    names_view(exported@),
                );
                assert(pending.take(k + 1).drop_last() =~= pending.take(k as int));
                assert(pending.take(k + 1).last() == pending[k as int]);
            }
            if contains_name(exported, &wanted[k]) {
                self.register(&wanted[k]);
            }
            k += 1;
        }
        proof {
            assert(pending.take(n as int) =~= pending);
        }
        let ghost mid = self.sources@;
        self.sources.insert(i, (key, SrcEntry::Done));
        proof {
            assert(key@ == src@);
            assert(self.sources@ == mid.insert(i as int, (key, SrcEntry::Done)));
            assert forall|j: int|
                0 <= j < self.src_pairs().len() implies self.src_pairs()[j] == oldpairs.update(
                i as int,
                (src@, SrcRec::Done),
            )[j] by {
                if j < i {
                    assert(self.src_pairs()[j] == mid.map_values(
                        |e: (String, SrcEntry)| (e.0@, e.1@),
                    )[j]);
                } else if j > i {
                    assert(self.sources@[j] == mid[j - 1]);
                    assert(self.src_pairs()[j] == mid.map_values(
                        |e: (String, SrcEntry)| (e.0@, e.1@),
                    )[j - 1]);
                    assert(oldpairs.remove(i as int)[j - 1] == oldpairs[j]);
                }
            }
            assert(self.src_pairs() =~= oldpairs.update(i as int, (src@, SrcRec::Done)));
            lemma_kv_map_update(oldpairs, i as int, SrcRec::Done);
        }
    }

    /// Abandons a pending fetch, so that a fresh load of the source may be
    /// tried again.
    pub fn fail_load(&mut self, src: &String)
        requires
            old(self).wf(),
            old(self).src_map().contains_key(src@),
            old(self).src_map()[src@] is Pending,
        ensures
            final(self).wf(),
            final(self).src_map() == old(self).src_map().remove(src@),
            final(self).loaded_map() == old(self).loaded_map(),
            final(self).next_class() == old(self).next_class(),
    {
        let ghost oldpairs = self.src_pairs();
        let i = match self.find_source(src) {
            Some(i) => i,
            None => {
                proof {
                    assert(false);
                }
                0
            },
        };
        proof {
            lemma_kv_map_remove(oldpairs, i as int);
        }
        self.sources.remove(i);
        proof {
            assert(self.src_pairs() =~= oldpairs.remove(i as int));
        }
    }

    /// The names requested so far from a source whose fetch is in flight.
    pub fn pending_of(&self, src: &String) -> (r: Option<Vec<String>>)
        requires
            self.wf(),
        ensures
            match r {
                Some(v) => self.src_map().contains_key(src@) && self.src_map()[src@] is Pending
                    && names_view(v@) == self.src_map()[src@]->Pending_names,
                None => !(self.src_map().contains_key(src@) && self.src_map()[src@] is Pending),
            },
    {
        match self.find_source(src) {
            Some(i) => match &self.sources[i].1 {
                SrcEntry::Pending(v) => Some(clone_names(v)),
                SrcEntry::Done => None,
            },
            None => None,
        }
    }

    /// Looks every requested name up among the completed classes, in order;
    /// the first name without a class fails the whole lookup.
    pub fn resolve(&self, names: &Vec<String>) -> (r: Result<Vec<JsClassHandle>, DivError>)
        requires
            self.wf(),
        ensures
            match r {
                Ok(hs) => {
                    &&& hs@.len() == names@.len()
                    &&& forall|j: int|
                        0 <= j < names@.len() ==> self.loaded_map().contains_key(
                            (#[trigger] names@[j])@,
                        )
                    &&& forall|j: int|
                        0 <= j < names@.len() ==> (#[trigger] hs@[j]).0 == self.loaded_map()[
                            names@[j]@]
                },
                Err(DivError::ExportNotFound(missing)) => exists|j: int|
                    {
                        &&& 0 <= j < names@.len()
                        &&& !self.loaded_map().contains_key((#[trigger] names@[j])@)
                        &&& forall|l: int|
                            0 <= l < j ==> self.loaded_map().contains_key((#[trigger] names@[l])@)
                        &&& missing@ == names@[j]@
                    },
                _ => false,
            },
    {
        let n = names.len();
        let mut hs: Vec<JsClassHandle> = Vec::new();
        let mut k: usize = 0;
        while k < n
            invariant
                n == names.len(),
                k <= n,
                self.wf(),
                hs@.len() == k,
                forall|j: int|
                    0 <= j < k ==> self.loaded_map().contains_key((#[trigger] names@[j])@),
                forall|j: int|
                    0 <= j < k ==> (#[trigger] hs@[j]).0 == self.loaded_map()[names@[j]@],
            decreases n - k,
        {
            match self.find_loaded(&names[k]) {
                Some(i) => {
                    hs.push(JsClassHandle(self.loaded[i].1));
                },
                None => {
                    return Err(DivError::ExportNotFound(names[k].clone()));
                },
            }
            k += 1;
        }
        Ok(hs)
    }
}

} // verus!
