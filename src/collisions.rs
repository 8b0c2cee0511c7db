use nonempty::NonEmpty;
use vstd::prelude::*;

verus! {

/// `NonEmpty` from the nonempty crate: a head element and a (possibly
/// empty) tail, both public fields.
#[verifier::external_type_specification]
#[verifier::reject_recursive_types(T)]
pub struct ExNonEmpty<T>(NonEmpty<T>);

/// The names held by a sequence of strings.
pub open spec fn names_of(v: Seq<String>) -> Seq<Seq<char>> {
    v.map_values(|s: String| s@)
}

/// The names held by a non-empty list, head first.
pub open spec fn nonempty_names(n: NonEmpty<String>) -> Seq<Seq<char>> {
    seq![n.head@] + names_of(n.tail@)
}

/// The requested names (in request order, duplicates kept) that name an
/// existing subdirectory.
pub open spec fn colliding(requested: Seq<Seq<char>>, existing: Set<Seq<char>>) -> Seq<Seq<char>>
    decreases requested.len(),
{
    if requested.len() == 0 {
        Seq::empty()
    } else {
        let rest = colliding(requested.drop_last(), existing);
        if existing.contains(requested.last()) {
            rest.push(requested.last())
        } else {
            rest
        }
    }
}

/// No requested name collides.
pub open spec fn no_collisions(requested: Seq<Seq<char>>, existing: Set<Seq<char>>) -> bool {
    colliding(requested, existing).len() == 0
}

/// Something was requested, and every requested name collides.
pub open spec fn all_collide(requested: Seq<Seq<char>>, existing: Set<Seq<char>>) -> bool {
    requested.len() > 0 && colliding(requested, existing).len() == requested.len()
}

/// How the requested templates relate to the subdirectories that already
/// exist in the scaffold directory.
#[derive(Debug)]
pub enum TemplateCollisions {
    /// No requested template has a subdirectory yet.
    Disjoint,
    /// Every requested template has a subdirectory already.
    All(NonEmpty<String>),
    /// Some, but not all, requested templates have a subdirectory already.
    Partial(NonEmpty<String>),
}

impl TemplateCollisions {
    /// The colliding names, in request order (empty for `None`).
    pub open spec fn names(&self) -> Seq<Seq<char>> {
        match self {
            TemplateCollisions::Disjoint => Seq::empty(),
            TemplateCollisions::All(ts) => nonempty_names(*ts),
            TemplateCollisions::Partial(ts) => nonempty_names(*ts),
        }
    }

    /// This value is the verdict for `requested` against `existing`.
    pub open spec fn is_verdict(&self, requested: Seq<Seq<char>>, existing: Set<Seq<char>>) -> bool {
        &&& (self is Disjoint <==> no_collisions(requested, existing))
        &&& (self is All <==> all_collide(requested, existing))
        &&& (self is Partial <==> !no_collisions(requested, existing) && !all_collide(requested, existing))
        &&& self.names() == colliding(requested, existing)
    }
}

proof fn lemma_colliding_len(requested: Seq<Seq<char>>, existing: Set<Seq<char>>)
    ensures
        colliding(requested, existing).len() <= requested.len(),
        colliding(requested, existing).len() == 0 <==> forall|i: int|
            0 <= i < requested.len() ==> !existing.contains(#[trigger] requested[i]),
        colliding(requested, existing).len() == requested.len() <==> forall|i: int|
            0 <= i < requested.len() ==> existing.contains(#[trigger] requested[i]),
    decreases requested.len(),
{
    if requested.len() > 0 {
        let init = requested.drop_last();
        lemma_colliding_len(init, existing);
        assert forall|i: int| 0 <= i < init.len() implies init[i] == requested[i] by {}
        assert(requested.last() == requested[requested.len() - 1]);
    }
}

/// Classification of a request against the set of names that collide with
/// it: no collisions exactly when that set is empty, and total collision
/// exactly when it is the whole (non-empty) request; every other case is a
/// partial collision.
pub proof fn lemma_classification(requested: Seq<Seq<char>>, existing: Set<Seq<char>>)
    requires
        existing.subset_of(requested.to_set()),
    ensures
        no_collisions(requested, existing) <==> existing.is_empty(),
        all_collide(requested, existing) <==> (requested.len() > 0 && existing
            == requested.to_set()),
        !no_collisions(requested, existing) && !all_collide(requested, existing) <==> (
        !existing.is_empty() && existing != requested.to_set()),
{
    lemma_colliding_len(requested, existing);
    if no_collisions(requested, existing) {
        if !existing.is_empty() {
            let x = existing.choose();
            assert(requested.to_set().contains(x));
            let k = choose|k: int| 0 <= k < requested.len() && requested[k] == x;
            assert(existing.contains(requested[k]));
        }
    } else {
        let k = choose|k: int| 0 <= k < requested.len() && existing.contains(#[trigger] requested[k]);
        assert(existing.contains(requested[k]));
    }
    if requested.len() > 0 && existing == requested.to_set() {
        assert forall|i: int| 0 <= i < requested.len() implies existing.contains(
            #[trigger] requested[i],
        ) by {
            assert(requested.to_set().contains(requested[i]));
        }
    }
    if all_collide(requested, existing) {
        assert forall|x: Seq<char>| #[trigger] requested.to_set().contains(x) implies existing.contains(x) by {
            let k = choose|k: int| 0 <= k < requested.len() && requested[k] == x;
            assert(existing.contains(requested[k]));
        }
        assert(existing =~= requested.to_set());
    }
    if requested.len() == 0 {
        assert(requested.to_set() =~= Set::empty());
    }
}

/// An empty request never collides, whatever exists on disk.
pub proof fn lemma_empty_request_never_collides(existing: Set<Seq<char>>)
    requires
        existing.subset_of(Seq::<Seq<char>>::empty().to_set()),
    ensures
        no_collisions(Seq::empty(), existing),
        !all_collide(Seq::empty(), existing),
{
}

impl TemplateCollisions {
    /// The colliding names, in request order (empty for `Disjoint`).
    pub fn colliding_names(&self) -> (r: Vec<String>)
        ensures
            names_of(r@) == self.names(),
    {
        match self {
            TemplateCollisions::Disjoint => {
                let r: Vec<String> = Vec::new();
                assert(names_of(r@) =~= Seq::empty());
                r
            },
            TemplateCollisions::All(ts) => nonempty_to_vec(ts),
            TemplateCollisions::Partial(ts) => nonempty_to_vec(ts),
        }
    }
}

fn nonempty_to_vec(ts: &NonEmpty<String>) -> (r: Vec<String>)
    ensures
        names_of(r@) == nonempty_names(*ts),
{
    let mut r: Vec<String> = vec![ts.head.clone()];
    let mut i: usize = 0;
    while i < ts.tail.len()
        invariant
            i <= ts.tail.len(),
            names_of(r@) =~= seq![ts.head@] + names_of(ts.tail@).subrange(0, i as int),
        decreases ts.tail.len() - i,
    {
        let ghost before = r@;
        r.push(ts.tail[i].clone());
        assert(names_of(r@) =~= names_of(before).push(ts.tail@[i as int]@));
        i += 1;
    }
    assert(names_of(ts.tail@).subrange(0, i as int) =~= names_of(ts.tail@));
    r
}

/// The names with later repeats left out, in order of first appearance.
pub open spec fn distinct(names: Seq<Seq<char>>) -> Seq<Seq<char>>
    decreases names.len(),
{
    if names.len() == 0 {
        Seq::empty()
    } else {
        let rest = distinct(names.drop_last());
        if rest.contains(names.last()) {
            rest
        } else {
            rest.push(names.last())
        }
    }
}

/// The names with later repeats left out, in order of first appearance.
pub fn distinct_names(names: &Vec<String>) -> (r: Vec<String>)
    ensures
        names_of(r@) == distinct(names_of(names@)),
{
    let ghost all = names_of(names@);
    let mut r: Vec<String> = Vec::new();
    let mut i: usize = 0;
    while i < names.len()
        invariant
            i <= names.len(),
            all == names_of(names@),
            names_of(r@) == distinct(all.subrange(0, i as int)),
        decreases names.len() - i,
    {
        let ghost next = all.subrange(0, i + 1);
        assert(next.drop_last() =~= all.subrange(0, i as int));
        assert(next.last() == names@[i as int]@);
        if !contains_name(&r, &names[i]) {
            let ghost before = r@;
            r.push(names[i].clone());
            assert(names_of(r@) =~= names_of(before).push(names@[i as int]@));
        }
        i += 1;
    }
    assert(all.subrange(0, i as int) =~= all);
    r
}

/// Whether `name` is one of `names`.
pub fn contains_name(names: &Vec<String>, name: &String) -> (r: bool)
    ensures
        r == names_of(names@).contains(name@),
{
    let mut i: usize = 0;
    while i < names.len()
        invariant
            i <= names.len(),
            forall|j: int| 0 <= j < i ==> names@[j]@ != name@,
        decreases names.len() - i,
    {
        if names[i] == *name {
            assert(names_of(names@)[i as int] == name@);
            return true;
        }
        i += 1;
    }
    proof {
        if names_of(names@).contains(name@) {
            let k = choose|k: int| 0 <= k < names_of(names@).len() && names_of(names@)[k] == name@;
            assert(names@[k]@ == name@);
        }
    }
    false
}

/// Classifies the requested template names against the names of the
/// subdirectories that already exist in the scaffold directory.
pub fn classify(requested: &Vec<String>, existing: &Vec<String>) -> (r: TemplateCollisions)
    ensures
        r.is_verdict(names_of(requested@), names_of(existing@).to_set()),
{
    let ghost req = names_of(requested@);
    let ghost ex = names_of(existing@).to_set();
    let mut head: Option<String> = None;
    let mut tail: Vec<String> = Vec::new();
    let mut count: usize = 0;
    let mut i: usize = 0;
    while i < requested.len()
        invariant
            i <= requested.len(),
            count as int == colliding(req.subrange(0, i as int), ex).len(),
            head is None <==> count == 0,
            head is None ==> tail@.len() == 0,
            head is Some ==> seq![head->0@] + names_of(tail@) == colliding(
                req.subrange(0, i as int),
                ex,
            ),
            count <= i,
            req == names_of(requested@),
            ex == names_of(existing@).to_set(),
        decreases requested.len() - i,
    {
        let ghost before = req.subrange(0, i as int);
        assert(req.subrange(0, i + 1).drop_last() == before);
        assert(req.subrange(0, i + 1).last() == requested@[i as int]@);
        let hit = contains_name(existing, &requested[i]);
        proof {
            assert(names_of(existing@).contains(requested@[i as int]@) <==> ex.contains(
                requested@[i as int]@,
            ));
        }
        if hit {
            let name = requested[i].clone();
            match &head {
                Option::None => {
                    head = Option::Some(name);
                    assert(names_of(tail@) =~= Seq::empty());
                    assert(colliding(before, ex) =~= Seq::empty());
                    assert(seq![head->0@] + names_of(tail@) =~= colliding(before, ex).push(
                        requested@[i as int]@,
                    ));
                },
                Option::Some(ref h) => {
                    let ghost old_tail = tail@;
                    tail.push(name);
                    assert(names_of(tail@) =~= names_of(old_tail).push(requested@[i as int]@));
                    assert(seq![h@] + names_of(tail@) =~= (seq![h@] + names_of(old_tail)).push(
                        requested@[i as int]@,
                    ));
                },
            }
            count += 1;
        }
        i += 1;
    }
    assert(req.subrange(0, requested.len() as int) == req);
    match head {
        Option::None => {
            assert(colliding(req, ex) =~= Seq::empty());
            TemplateCollisions::Disjoint
        },
        Option::Some(h) => {
            let ts = NonEmpty { head: h, tail };
            if count == requested.len() {
                TemplateCollisions::All(ts)
            } else {
                TemplateCollisions::Partial(ts)
            }
        },
    }
}

} // verus!
