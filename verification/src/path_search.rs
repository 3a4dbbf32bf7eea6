//! Canonicalizing a path that may not exist yet: the deepest ancestor that
//! exists is canonicalized, and the rest of the path is joined onto it.
//!
//! Paths are held as their components. Asking the file system for a
//! canonical form is left to the caller: the search says which ancestor to
//! canonicalize next and what to make of the answer.

use vstd::prelude::*;

verus! {

/// One component of a path, names held as the bytes the platform encodes
/// them with.
pub enum PathComponent {
    /// A Windows path prefix such as `C:`.
    Prefix(Vec<u8>),
    /// The root directory.
    RootDir,
    /// `.` at the start of a relative path.
    CurDir,
    /// `..`.
    ParentDir,
    /// A file or directory name.
    Normal(Vec<u8>),
}

/// A path component as a value.
pub enum ComponentView {
    Prefix(Seq<u8>),
    RootDir,
    CurDir,
    ParentDir,
    Normal(Seq<u8>),
}

impl View for PathComponent {
    type V = ComponentView;

    open spec fn view(&self) -> ComponentView {
        match self {
            PathComponent::Prefix(b) => ComponentView::Prefix(b@),
            PathComponent::RootDir => ComponentView::RootDir,
            PathComponent::CurDir => ComponentView::CurDir,
            PathComponent::ParentDir => ComponentView::ParentDir,
            PathComponent::Normal(b) => ComponentView::Normal(b@),
        }
    }
}

/// A path's components as values.
pub open spec fn components_view(components: Seq<PathComponent>) -> Seq<ComponentView> {
    components.map_values(|c: PathComponent| c@)
}

impl PathComponent {
    /// A copy of the component.
    pub fn duplicate(&self) -> (c: PathComponent)
        ensures
            c@ == self@,
    {
        match self {
            PathComponent::Prefix(b) => PathComponent::Prefix(b.clone()),
            PathComponent::RootDir => PathComponent::RootDir,
            PathComponent::CurDir => PathComponent::CurDir,
            PathComponent::ParentDir => PathComponent::ParentDir,
            PathComponent::Normal(b) => PathComponent::Normal(b.clone()),
        }
    }
}

/// A path has a parent when it is not empty and does not end in a root
/// directory or a prefix: the parent drops the last component.
pub open spec fn has_parent(path: Seq<ComponentView>) -> bool {
    &&& path.len() > 0
    &&& !(path.last() is RootDir)
    &&& !(path.last() is Prefix)
}

/// The first `k` components of `full` form one of its ancestors (the path
/// itself counts): the parent can be taken from `full` down to them.
pub open spec fn is_ancestor_len(full: Seq<ComponentView>, k: int) -> bool {
    &&& 0 <= k <= full.len()
    &&& forall|j: int| k < j <= full.len() ==> #[trigger] has_parent(full.take(j))
}

/// The result of canonicalizing `full`, starting with its ancestor made of
/// the first `k` components and moving up while canonicalization fails;
/// `canon` gives the canonical form of each existing path.
pub open spec fn search_from(
    full: Seq<ComponentView>,
    k: nat,
    canon: spec_fn(Seq<ComponentView>) -> Option<Seq<ComponentView>>,
) -> Option<Seq<ComponentView>>
    decreases k,
{
    match canon(full.take(k as int)) {
        Some(c) => Some(c + full.skip(k as int)),
        None => if k > 0 && has_parent(full.take(k as int)) {
            search_from(full, (k - 1) as nat, canon)
        } else {
            None
        },
    }
}

/// The result of canonicalizing `full` while it may not exist.
pub open spec fn canonicalize_unexistent_spec(
    full: Seq<ComponentView>,
    canon: spec_fn(Seq<ComponentView>) -> Option<Seq<ComponentView>>,
) -> Option<Seq<ComponentView>> {
    search_from(full, full.len(), canon)
}

/// The answer for a candidate, as a sequence of components.
pub open spec fn answer_view(canonical: Option<Vec<PathComponent>>) -> Option<Seq<ComponentView>> {
    match canonical {
        Some(c) => Some(components_view(c@)),
        None => None,
    }
}

/// The search in progress: the path, and the length of the ancestor whose
/// canonical form is asked for next.
pub struct AncestorSearch {
    components: Vec<PathComponent>,
    len: usize,
}

/// What the search asks for next, or its result.
pub enum SearchStep {
    /// Canonicalize the search's current candidate, then advance it.
    Next(AncestorSearch),
    /// The canonical path.
    Found(Vec<PathComponent>),
    /// No ancestor of the path could be canonicalized.
    NotFound,
}

impl AncestorSearch {
    #[verifier::type_invariant]
    spec fn inv(self) -> bool {
        self.len <= self.components@.len()
    }

    /// The path being canonicalized.
    pub closed spec fn full(self) -> Seq<ComponentView> {
        components_view(self.components@)
    }

    /// The number of components of the current candidate.
    pub closed spec fn candidate_len(self) -> nat {
        self.len as nat
    }

    /// Starts the search at the path itself.
    pub fn start(components: Vec<PathComponent>) -> (s: AncestorSearch)
        ensures
            s.full() == components_view(components@),
            s.candidate_len() == components@.len(),
    {
        let len: usize = components.len();
        AncestorSearch { components, len }
    }

    /// The current candidate: the ancestor to canonicalize next.
    pub fn candidate(&self) -> (c: Vec<PathComponent>)
        ensures
            components_view(c@) == self.full().take(self.candidate_len() as int),
            self.candidate_len() <= self.full().len(),
    {
        proof {
            use_type_invariant(self);
        }
        let mut c: Vec<PathComponent> = Vec::new();
        let mut i: usize = 0;
        while i < self.len
            invariant
                self.len <= self.components@.len(),
                i <= self.len,
                components_view(c@) == components_view(self.components@).take(i as int),
            decreases self.len - i,
        {
            let ghost prev = c@;
            let item = self.components[i].duplicate();
            c.push(item);
            assert(components_view(c@) =~= components_view(prev).push(self.components@[i as int]@));
            i = i + 1;
            assert(components_view(c@) =~= components_view(self.components@).take(i as int));
        }
        c
    }

    /// Takes the answer for the current candidate: its canonical form, or
    /// `None` where it could not be canonicalized (it does not exist, or the
    /// file system refused). On an answer the search ends with the canonical
    /// form followed by the rest of the path; without one it moves to the
    /// parent, and ends with nothing when there is none.
    pub fn advance(self, canonical: Option<Vec<PathComponent>>) -> (step: SearchStep)
        ensures
            match step {
                SearchStep::Next(s) => {
                    &&& canonical is None
                    &&& has_parent(self.full().take(self.candidate_len() as int))
                    &&& self.candidate_len() > 0
                    &&& s.full() == self.full()
                    &&& s.candidate_len() == self.candidate_len() - 1
                },
                SearchStep::Found(p) => {
                    &&& canonical is Some
                    &&& components_view(p@) == answer_view(canonical).unwrap() + self.full().skip(
                        self.candidate_len() as int,
                    )
                },
                SearchStep::NotFound => {
                    &&& canonical is None
                    &&& !(self.candidate_len() > 0 && has_parent(
                        self.full().take(self.candidate_len() as int),
                    ))
                },
            },
            forall|canon: spec_fn(Seq<ComponentView>) -> Option<Seq<ComponentView>>|
                canon(self.full().take(self.candidate_len() as int)) == answer_view(canonical)
                    ==> #[trigger] search_from(self.full(), self.candidate_len(), canon) == match step {
                    SearchStep::Next(s) => search_from(s.full(), s.candidate_len(), canon),
                    SearchStep::Found(p) => Some(components_view(p@)),
                    SearchStep::NotFound => None,
                },
    {
        proof {
            use_type_invariant(&self);
        }
        match canonical {
            Some(canonical) => {
                let mut p = canonical;
                let ghost start = components_view(p@);
                let n: usize = self.components.len();
                let mut i: usize = self.len;
                while i < n
                    invariant
                        n == self.components@.len(),
                        self.len <= i <= n,
                        components_view(p@) == start + components_view(self.components@).subrange(
                            self.len as int,
                            i as int,
                        ),
                    decreases n - i,
                {
                    let ghost prev = p@;
                    let item = self.components[i].duplicate();
                    p.push(item);
                    assert(components_view(p@) =~= components_view(prev).push(
                        self.components@[i as int]@,
                    ));
                    i = i + 1;
                    assert(components_view(p@) =~= start + components_view(self.components@).subrange(
                        self.len as int,
                        i as int,
                    ));
                }
                assert(components_view(self.components@).subrange(self.len as int, n as int)
                    =~= components_view(self.components@).skip(self.len as int));
                SearchStep::Found(p)
            },
            None => {
                let k: usize = self.len;
                if k > 0 && Self::ends_with_removable(&self.components, k) {
                    SearchStep::Next(AncestorSearch { components: self.components, len: k - 1 })
                } else {
                    SearchStep::NotFound
                }
            },
        }
    }

    /// Whether the first `k` components (at least one) have a parent.
    fn ends_with_removable(components: &Vec<PathComponent>, k: usize) -> (b: bool)
        requires
            0 < k <= components@.len(),
        ensures
            b == has_parent(components_view(components@).take(k as int)),
    {
        match &components[k - 1] {
            PathComponent::RootDir => false,
            PathComponent::Prefix(_) => false,
            _ => true,
        }
    }
}

/// One step of the search follows the definition: the result of searching
/// from an ancestor is the answer for that ancestor joined with the rest of
/// the path, or else the result of searching from its parent, or else none.
pub proof fn lemma_search_step(
    full: Seq<ComponentView>,
    k: nat,
    canon: spec_fn(Seq<ComponentView>) -> Option<Seq<ComponentView>>,
)
    ensures
        canon(full.take(k as int)) is Some ==> search_from(full, k, canon) == Some(
            canon(full.take(k as int)).unwrap() + full.skip(k as int),
        ),
        canon(full.take(k as int)) is None && k > 0 && has_parent(full.take(k as int))
            ==> search_from(full, k, canon) == search_from(full, (k - 1) as nat, canon),
        canon(full.take(k as int)) is None && !(k > 0 && has_parent(full.take(k as int)))
            ==> search_from(full, k, canon) is None,
{
}

/// Starting from the ancestor of `k` components, the ancestor of `m`
/// components is reached by taking parents.
pub open spec fn reachable(full: Seq<ComponentView>, k: int, m: int) -> bool {
    &&& 0 <= m <= k
    &&& forall|j: int| m < j <= k ==> #[trigger] has_parent(full.take(j))
}

proof fn lemma_search_from_result(
    full: Seq<ComponentView>,
    k: nat,
    canon: spec_fn(Seq<ComponentView>) -> Option<Seq<ComponentView>>,
)
    requires
        k <= full.len(),
    ensures
        search_from(full, k, canon) is Some ==> exists|m: int|
            #![trigger canon(full.take(m))]
            {
                &&& reachable(full, k as int, m)
                &&& canon(full.take(m)) is Some
                &&& search_from(full, k, canon) == Some(canon(full.take(m)).unwrap() + full.skip(m))
                &&& forall|j: int| m < j <= k ==> #[trigger] canon(full.take(j)) is None
            },
        search_from(full, k, canon) is None ==> forall|m: int|
            reachable(full, k as int, m) ==> #[trigger] canon(full.take(m)) is None,
    decreases k,
{
    let kk: int = k as int;
    if canon(full.take(kk)) is Some {
        assert(reachable(full, kk, kk));
    } else if k > 0 && has_parent(full.take(kk)) {
        lemma_search_from_result(full, (k - 1) as nat, canon);
        if search_from(full, k, canon) is Some {
            let m = choose|m: int|
                #![trigger canon(full.take(m))]
                {
                    &&& reachable(full, kk - 1, m)
                    &&& canon(full.take(m)) is Some
                    &&& search_from(full, (k - 1) as nat, canon) == Some(
                        canon(full.take(m)).unwrap() + full.skip(m),
                    )
                    &&& forall|j: int| m < j <= kk - 1 ==> #[trigger] canon(full.take(j)) is None
                };
            assert(reachable(full, kk, m));
            assert forall|j: int| m < j <= kk implies #[trigger] canon(full.take(j)) is None by {
                if j < kk {
                    assert(canon(full.take(j)) is None);
                }
            }
        } else {
            assert forall|m: int| reachable(full, kk, m) implies #[trigger] canon(
                full.take(m),
            ) is None by {
                if m < kk {
                    assert(reachable(full, kk - 1, m));
                }
            }
        }
    } else {
        assert forall|m: int| reachable(full, kk, m) implies #[trigger] canon(
            full.take(m),
        ) is None by {
            if m < kk {
                assert(has_parent(full.take(kk)));
            }
        }
    }
}

/// Canonicalizing a path that may not exist gives the canonical form of its
/// deepest ancestor that can be canonicalized (the path itself first),
/// followed by the components below that ancestor; it gives nothing only
/// when no ancestor can be canonicalized.
pub proof fn lemma_deepest_existing_ancestor(
    full: Seq<ComponentView>,
    canon: spec_fn(Seq<ComponentView>) -> Option<Seq<ComponentView>>,
)
    ensures
        canonicalize_unexistent_spec(full, canon) is Some ==> exists|m: int|
            #![trigger canon(full.take(m))]
            {
                &&& is_ancestor_len(full, m)
                &&& canon(full.take(m)) is Some
                &&& canonicalize_unexistent_spec(full, canon) == Some(
                    canon(full.take(m)).unwrap() + full.skip(m),
                )
                &&& forall|j: int| m < j <= full.len() ==> #[trigger] canon(full.take(j)) is None
            },
        canonicalize_unexistent_spec(full, canon) is None ==> forall|m: int|
            is_ancestor_len(full, m) ==> #[trigger] canon(full.take(m)) is None,
{
    let n: int = full.len() as int;
    lemma_search_from_result(full, full.len(), canon);
    if canonicalize_unexistent_spec(full, canon) is Some {
        let m = choose|m: int|
            #![trigger canon(full.take(m))]
            {
                &&& reachable(full, n, m)
                &&& canon(full.take(m)) is Some
                &&& search_from(full, full.len(), canon) == Some(
                    canon(full.take(m)).unwrap() + full.skip(m),
                )
                &&& forall|j: int| m < j <= n ==> #[trigger] canon(full.take(j)) is None
            };
        assert(is_ancestor_len(full, m));
    } else {
        assert forall|m: int| is_ancestor_len(full, m) implies #[trigger] canon(
            full.take(m),
        ) is None by {
            assert(reachable(full, n, m));
        }
    }
}

proof fn lemma_search_reaches(
    full: Seq<ComponentView>,
    canon: spec_fn(Seq<ComponentView>) -> Option<Seq<ComponentView>>,
    m: int,
    k: int,
)
    requires
        is_ancestor_len(full, m),
        m <= k <= full.len(),
        canon(full.take(m)) is Some,
        forall|j: int| m < j <= full.len() ==> #[trigger] canon(full.take(j)) is None,
    ensures
        search_from(full, k as nat, canon) == Some(canon(full.take(m)).unwrap() + full.skip(m)),
    decreases k - m,
{
    if k > m {
        assert(has_parent(full.take(k)));
        lemma_search_reaches(full, canon, m, k - 1);
    }
}

proof fn lemma_search_again(
    full: Seq<ComponentView>,
    canon: spec_fn(Seq<ComponentView>) -> Option<Seq<ComponentView>>,
    m: int,
    c: Seq<ComponentView>,
    t: int,
)
    requires
        is_ancestor_len(full, m),
        0 <= t <= full.len() - m,
        canon(c) == Some(c),
        forall|j: int|
            m < j <= full.len() ==> #[trigger] canon(c + full.subrange(m, j)) is None,
    ensures
        search_from(c + full.skip(m), (c.len() + t) as nat, canon) == Some(c + full.skip(m)),
    decreases t,
{
    let r = c + full.skip(m);
    let k = c.len() + t;
    if t == 0 {
        assert(r.take(k) =~= c);
        assert(r.skip(k) =~= full.skip(m));
    } else {
        assert(r.take(k) =~= c + full.subrange(m, m + t));
        assert(canon(c + full.subrange(m, m + t)) is None);
        assert(has_parent(full.take(m + t)));
        assert(r.take(k).last() == full.take(m + t).last());
        lemma_search_again(full, canon, m, c, t - 1);
    }
}

/// Canonicalizing again what canonicalizing a path gave, while the file
/// system stays as it was, gives the same path back. The file system's
/// canonicalization is `canon`; staying as it was means that the canonical
/// form `c` of the deepest existing ancestor is its own canonical form, and
/// that the names below that ancestor that do not exist do not exist below
/// `c` either.
pub proof fn lemma_canonicalize_twice(
    full: Seq<ComponentView>,
    canon: spec_fn(Seq<ComponentView>) -> Option<Seq<ComponentView>>,
    m: int,
)
    requires
        is_ancestor_len(full, m),
        canon(full.take(m)) is Some,
        forall|j: int| m < j <= full.len() ==> #[trigger] canon(full.take(j)) is None,
        canon(canon(full.take(m)).unwrap()) == canon(full.take(m)),
        forall|j: int|
            m < j <= full.len() ==> #[trigger] canon(
                canon(full.take(m)).unwrap() + full.subrange(m, j),
            ) is None,
    ensures
        canonicalize_unexistent_spec(full, canon) == Some(
            canon(full.take(m)).unwrap() + full.skip(m),
        ),
        canonicalize_unexistent_spec(canon(full.take(m)).unwrap() + full.skip(m), canon) == Some(
            canon(full.take(m)).unwrap() + full.skip(m),
        ),
{
    let c = canon(full.take(m)).unwrap();
    lemma_search_reaches(full, canon, m, full.len() as int);
    lemma_search_again(full, canon, m, c, full.len() - m);
    assert((c + full.skip(m)).len() == c.len() + (full.len() - m));
}

} // verus!
