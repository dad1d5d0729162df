//! Links (aliases for a bookable project, service and hour type) and the
//! store that maps each alias to its link.
use crate::copy::Duplicate;
use crate::error::Error;
use vstd::prelude::*;

verus! {

/// A named shortcut to a bookable target of the remote service.
#[derive(Clone, Debug)]
pub struct Link {
    pub alias: String,
    pub project_id: String,
    pub service_id: String,
    pub hour_type_id: String,
    pub description: String,
}

/// What a link holds, as text.
pub struct LinkView {
    pub alias: Seq<char>,
    pub project_id: Seq<char>,
    pub service_id: Seq<char>,
    pub hour_type_id: Seq<char>,
    pub description: Seq<char>,
}

impl View for Link {
    type V = LinkView;

    open spec fn view(&self) -> LinkView {
        LinkView {
            alias: self.alias@,
            project_id: self.project_id@,
            service_id: self.service_id@,
            hour_type_id: self.hour_type_id@,
            description: self.description@,
        }
    }
}

impl Duplicate for Link {
    fn duplicate(&self) -> (r: Link) {
        Link {
            alias: self.alias.clone(),
            project_id: self.project_id.clone(),
            service_id: self.service_id.clone(),
            hour_type_id: self.hour_type_id.clone(),
            description: self.description.clone(),
        }
    }
}

impl Link {

    /// The link stored under `alias`, or `UnknownAlias`.
    pub fn from_alias(store: &LinkStore, alias: &String) -> (r: Result<Link, Error>)
        requires
            store.wf(),
        ensures
            store@.contains_key(alias@) ==> (r matches Ok(l) && l@ == store@[alias@]),
            !store@.contains_key(alias@) ==> r == Err::<Link, Error>(Error::UnknownAlias),
    {
        match store.find(alias) {
            Some(i) => Ok(store.links[i].duplicate()),
            None => Err(Error::UnknownAlias),
        }
    }
}

/// The map from alias to link that the links `s` give, a later link
/// replacing an earlier one of the same alias.
pub open spec fn link_map(s: Seq<LinkView>) -> Map<Seq<char>, LinkView>
    decreases s.len(),
{
    if s.len() == 0 {
        Map::empty()
    } else {
        link_map(s.drop_last()).insert(s.last().alias, s.last())
    }
}

pub open spec fn views(s: Seq<Link>) -> Seq<LinkView> {
    s.map_values(|l: Link| l@)
}

pub open spec fn unique_aliases(s: Seq<LinkView>) -> bool {
    forall|i: int, j: int|
        0 <= i < s.len() && 0 <= j < s.len() && i != j ==> #[trigger] s[i].alias != #[trigger] s[j].alias
}

/// The links, each under its own alias, in the order in which their aliases
/// were first stored.
pub struct LinkStore {
    pub links: Vec<Link>,
}

impl View for LinkStore {
    type V = Map<Seq<char>, LinkView>;

    open spec fn view(&self) -> Map<Seq<char>, LinkView> {
        link_map(views(self.links@))
    }
}

proof fn lemma_map_has(s: Seq<LinkView>, i: int)
    requires
        unique_aliases(s),
        0 <= i < s.len(),
    ensures
        link_map(s).contains_key(s[i].alias),
        link_map(s)[s[i].alias] == s[i],
    decreases s.len(),
{
    if i < s.len() - 1 {
        let p = s.drop_last();
        assert(unique_aliases(p)) by {
            assert forall|a: int, b: int|
                0 <= a < p.len() && 0 <= b < p.len() && a != b implies #[trigger] p[a].alias
                != #[trigger] p[b].alias by {
                assert(p[a] == s[a] && p[b] == s[b]);
            }
        }
        assert(p[i] == s[i]);
        lemma_map_has(p, i);
        assert(s.last() == s[s.len() - 1]);
    }
}

proof fn lemma_map_lacks(s: Seq<LinkView>, a: Seq<char>)
    requires
        forall|i: int| 0 <= i < s.len() ==> #[trigger] s[i].alias != a,
    ensures
        !link_map(s).contains_key(a),
    decreases s.len(),
{
    if s.len() > 0 {
        let p = s.drop_last();
        assert forall|i: int| 0 <= i < p.len() implies #[trigger] p[i].alias != a by {
            assert(p[i] == s[i]);
        }
        lemma_map_lacks(p, a);
        assert(s.last() == s[s.len() - 1]);
    }
}

proof fn lemma_map_keys(s: Seq<LinkView>, a: Seq<char>)
    requires
        link_map(s).contains_key(a),
    ensures
        exists|i: int| 0 <= i < s.len() && #[trigger] s[i].alias == a,
    decreases s.len(),
{
    if s.len() > 0 {
        let p = s.drop_last();
        if a == s.last().alias {
            assert(s[s.len() - 1].alias == a);
        } else {
            lemma_map_keys(p, a);
            let i = choose|i: int| 0 <= i < p.len() && #[trigger] p[i].alias == a;
            assert(s[i] == p[i]);
        }
    }
}

proof fn lemma_map_update(s: Seq<LinkView>, i: int, l: LinkView)
    requires
        unique_aliases(s),
        0 <= i < s.len(),
        l.alias == s[i].alias,
    ensures
        unique_aliases(s.update(i, l)),
        link_map(s.update(i, l)) == link_map(s).insert(l.alias, l),
{
    let t = s.update(i, l);
    assert(unique_aliases(t)) by {
        assert forall|a: int, b: int|
            0 <= a < t.len() && 0 <= b < t.len() && a != b implies #[trigger] t[a].alias
            != #[trigger] t[b].alias by {
            assert(t[a].alias == s[a].alias && t[b].alias == s[b].alias);
        }
    }
    assert forall|k: Seq<char>| #[trigger]
        link_map(t).contains_key(k) == link_map(s).insert(l.alias, l).contains_key(k) by {
        if link_map(t).contains_key(k) {
            lemma_map_keys(t, k);
            let j = choose|j: int| 0 <= j < t.len() && #[trigger] t[j].alias == k;
            if j != i {
                lemma_map_has(s, j);
            }
        }
        if link_map(s).contains_key(k) {
            lemma_map_keys(s, k);
            let j = choose|j: int| 0 <= j < s.len() && #[trigger] s[j].alias == k;
            lemma_map_has(t, j);
        }
        lemma_map_has(t, i);
    }
    assert forall|k: Seq<char>| #[trigger] link_map(t).contains_key(k) implies link_map(t)[k]
        == link_map(s).insert(l.alias, l)[k] by {
        lemma_map_keys(t, k);
        let j = choose|j: int| 0 <= j < t.len() && #[trigger] t[j].alias == k;
        lemma_map_has(t, j);
        if j != i {
            lemma_map_has(s, j);
        }
    }
    assert(link_map(t) =~= link_map(s).insert(l.alias, l));
}

proof fn lemma_map_remove(s: Seq<LinkView>, i: int)
    requires
        unique_aliases(s),
        0 <= i < s.len(),
    ensures
        unique_aliases(s.remove(i)),
        link_map(s.remove(i)) == link_map(s).remove(s[i].alias),
{
    let t = s.remove(i);
    let a = s[i].alias;
    assert(unique_aliases(t)) by {
        assert forall|x: int, y: int|
            0 <= x < t.len() && 0 <= y < t.len() && x != y implies #[trigger] t[x].alias
            != #[trigger] t[y].alias by {
            let sx = if x < i { x } else { x + 1 };
            let sy = if y < i { y } else { y + 1 };
            assert(t[x] == s[sx] && t[y] == s[sy]);
        }
    }
    assert forall|k: Seq<char>| #[trigger]
        link_map(t).contains_key(k) == link_map(s).remove(a).contains_key(k) by {
        if link_map(t).contains_key(k) {
            lemma_map_keys(t, k);
            let j = choose|j: int| 0 <= j < t.len() && #[trigger] t[j].alias == k;
            let sj = if j < i { j } else { j + 1 };
            assert(t[j] == s[sj]);
            lemma_map_has(s, sj);
        }
        if link_map(s).remove(a).contains_key(k) {
            lemma_map_keys(s, k);
            let j = choose|j: int| 0 <= j < s.len() && #[trigger] s[j].alias == k;
            let tj = if j < i { j } else { j - 1 };
            assert(t[tj] == s[j]);
            lemma_map_has(t, tj);
        }
    }
    assert forall|k: Seq<char>| #[trigger] link_map(t).contains_key(k) implies link_map(t)[k]
        == link_map(s).remove(a)[k] by {
        lemma_map_keys(t, k);
        let j = choose|j: int| 0 <= j < t.len() && #[trigger] t[j].alias == k;
        let sj = if j < i { j } else { j + 1 };
        assert(t[j] == s[sj]);
        lemma_map_has(t, j);
        lemma_map_has(s, sj);
    }
    assert(link_map(t) =~= link_map(s).remove(a));
}

impl LinkStore {
    /// No two links share an alias.
    pub open spec fn wf(&self) -> bool {
        unique_aliases(views(self.links@))
    }

    /// A store without links.
    pub fn new() -> (r: LinkStore)
        ensures
            r.wf(),
            r@ == Map::<Seq<char>, LinkView>::empty(),
            r.links@.len() == 0,
    {
        LinkStore { links: Vec::new() }
    }

    /// A store that holds `links`, a later link replacing an earlier one of
    /// the same alias.
    pub fn from_links(links: Vec<Link>) -> (r: LinkStore)
        ensures
            r.wf(),
            r@ == link_map(views(links@)),
    {
        let mut store = LinkStore::new();
        let mut i: usize = 0;
        while i < links.len()
            invariant
                i <= links@.len(),
                store.wf(),
                store@ == link_map(views(links@.subrange(0, i as int))),
            decreases links@.len() - i,
        {
            store.upsert(links[i].duplicate());
            assert(views(links@.subrange(0, i + 1)).drop_last() =~= views(
                links@.subrange(0, i as int),
            ));
            i = i + 1;
        }
        assert(links@.subrange(0, links@.len() as int) =~= links@);
        store
    }

    /// The position of the link stored under `alias`.
    fn find(&self, alias: &String) -> (r: Option<usize>)
        requires
            self.wf(),
        ensures
            r matches Some(i) ==> i < self.links@.len() && self.links@[i as int].alias@ == alias@
                && self@.contains_key(alias@) && self@[alias@] == self.links@[i as int]@,
            r is None ==> !self@.contains_key(alias@),
    {
        let mut i: usize = 0;
        while i < self.links.len()
            invariant
                self.wf(),
                i <= self.links@.len(),
                forall|j: int| 0 <= j < i ==> #[trigger] self.links@[j].alias@ != alias@,
            decreases self.links@.len() - i,
        {
            if self.links[i].alias == *alias {
                proof {
                    lemma_map_has(views(self.links@), i as int);
                }
                return Some(i);
            }
            i = i + 1;
        }
        proof {
            let s = views(self.links@);
            assert forall|j: int| 0 <= j < s.len() implies #[trigger] s[j].alias != alias@ by {
                assert(s[j] == self.links@[j]@);
            }
            lemma_map_lacks(s, alias@);
        }
        None
    }

    /// The link stored under `alias`, if any.
    pub fn get(&self, alias: &String) -> (r: Option<Link>)
        requires
            self.wf(),
        ensures
            self@.contains_key(alias@) ==> (r matches Some(l) && l@ == self@[alias@]),
            !self@.contains_key(alias@) ==> r is None,
    {
        match self.find(alias) {
            Some(i) => Some(self.links[i].duplicate()),
            None => None,
        }
    }

    /// Stores `link` under its alias, replacing any link stored there.
    pub fn upsert(&mut self, link: Link)
        requires
            old(self).wf(),
        ensures
            final(self).wf(),
            final(self)@ == old(self)@.insert(link.alias@, link@),
    {
        match self.find(&link.alias) {
            Some(i) => {
                proof {
                    lemma_map_update(views(self.links@), i as int, link@);
                }
                self.links.set(i, link);
                assert(views(self.links@) =~= views(old(self).links@).update(i as int, link@));
            },
            None => {
                let ghost a = link.alias@;
                let ghost lv = link@;
                self.links.push(link);
                let ghost s = views(self.links@);
                assert(s.drop_last() =~= views(old(self).links@));
                assert(s.last() == lv);
                proof {
                    assert forall|x: int, y: int|
                        0 <= x < s.len() && 0 <= y < s.len() && x != y implies #[trigger] s[x].alias
                        != #[trigger] s[y].alias by {
                        if x < s.len() - 1 && y < s.len() - 1 {
                            assert(s[x] == views(old(self).links@)[x]);
                            assert(s[y] == views(old(self).links@)[y]);
                        } else if x < s.len() - 1 {
                            assert(s[x] == views(old(self).links@)[x]);
                            lemma_map_has(views(old(self).links@), x);
                        } else {
                            assert(s[y] == views(old(self).links@)[y]);
                            lemma_map_has(views(old(self).links@), y);
                        }
                    }
                }
            },
        }
    }

    /// Removes the link stored under `alias`; nothing happens where there is
    /// none.
    pub fn remove(&mut self, alias: &String)
        requires
            old(self).wf(),
        ensures
            final(self).wf(),
            final(self)@ == old(self)@.remove(alias@),
    {
        match self.find(alias) {
            Some(i) => {
                proof {
                    lemma_map_remove(views(self.links@), i as int);
                }
                self.links.remove(i);
                assert(views(self.links@) =~= views(old(self).links@).remove(i as int));
            },
            None => {
                assert(old(self)@.remove(alias@) =~= old(self)@);
            },
        }
    }
}

/// Resolving the alias of a link just stored gives that link back.
pub proof fn lemma_resolve_after_upsert(store: LinkStore, link: Link)
    requires
        store.wf(),
    ensures
        store@.insert(link.alias@, link@).contains_key(link.alias@),
        store@.insert(link.alias@, link@)[link.alias@] == link@,
{
}

/// Removing an alias that is not stored leaves the store as it was.
pub proof fn lemma_remove_absent(store: LinkStore, alias: String)
    requires
        store.wf(),
        !store@.contains_key(alias@),
    ensures
        store@.remove(alias@) == store@,
{
    assert(store@.remove(alias@) =~= store@);
}

/// Storing a second link under the same alias replaces the first entirely:
/// the store is as if only the second had been stored.
pub proof fn lemma_upsert_replaces(store: LinkStore, first: Link, second: Link)
    requires
        store.wf(),
        first.alias@ == second.alias@,
    ensures
        store@.insert(first.alias@, first@).insert(second.alias@, second@) == store@.insert(
            second.alias@,
            second@,
        ),
        store@.insert(first.alias@, first@).insert(second.alias@, second@)[second.alias@]
            == second@,
{
    assert(store@.insert(first.alias@, first@).insert(second.alias@, second@) =~= store@.insert(
        second.alias@,
        second@,
    ));
}

} // verus!
