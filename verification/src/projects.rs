//! The recorded projects: connections by project root, in the order of their
//! roots.

use vstd::prelude::*;

use crate::connection::{ConnectionView, JupyterConnection};
use crate::text::{compare_texts, law_text_order, text_precedes, Standing};

verus! {

/// One recorded project: its root, and the connection made there.
#[derive(Debug)]
pub struct Project {
    pub root: String,
    pub connection: JupyterConnection,
}

/// Whether every root comes before those that follow it.
pub open spec fn in_order(list: Seq<Project>) -> bool {
    forall|i: int, j: int|
        0 <= i < j < list.len() ==> text_precedes(#[trigger] list[i].root@, #[trigger] list[j].root@)
}

/// Whether some project of the list has this root.
pub open spec fn is_listed(list: Seq<Project>, root: Seq<char>) -> bool {
    exists|i: int| 0 <= i < list.len() && #[trigger] list[i].root@ == root
}

/// Where in the list this root stands.
pub open spec fn place(list: Seq<Project>, root: Seq<char>) -> int {
    choose|i: int| 0 <= i < list.len() && #[trigger] list[i].root@ == root
}

/// The connections of a list of projects, by root.
pub open spec fn by_root(list: Seq<Project>) -> Map<Seq<char>, ConnectionView> {
    Map::new(|root: Seq<char>| is_listed(list, root), |root: Seq<char>|
        list[place(list, root)].connection@)
}

/// Connections by project root. Each root is recorded once, and the projects
/// are kept in the order of their roots.
#[derive(Debug)]
pub struct ProjectMap {
    list: Vec<Project>,
}

impl View for ProjectMap {
    type V = Map<Seq<char>, ConnectionView>;

    closed spec fn view(&self) -> Map<Seq<char>, ConnectionView> {
        by_root(self.list@)
    }
}

/// In an ordered list a root stands in one place only.
proof fn lemma_place(list: Seq<Project>, i: int)
    requires
        in_order(list),
        0 <= i < list.len(),
    ensures
        is_listed(list, list[i].root@),
        place(list, list[i].root@) == i,
        by_root(list).contains_key(list[i].root@),
        by_root(list)[list[i].root@] == list[i].connection@,
{
    let root = list[i].root@;
    assert(is_listed(list, root));
    let j = place(list, root);
    law_text_order(root, root, root);
    if j < i {
        assert(text_precedes(list[j].root@, list[i].root@));
    } else if i < j {
        assert(text_precedes(list[i].root@, list[j].root@));
    }
}

/// Lists that differ in the project of one root only agree on all others.
proof fn lemma_same_but_one(before: Seq<Project>, after: Seq<Project>, root: Seq<char>)
    requires
        in_order(before),
        in_order(after),
        forall|i: int|
            0 <= i < after.len() && after[i].root@ != root ==> before.contains(#[trigger] after[i]),
        forall|i: int|
            0 <= i < before.len() && before[i].root@ != root ==> after.contains(
                #[trigger] before[i],
            ),
    ensures
        by_root(after).remove(root) == by_root(before).remove(root),
{
    let x = by_root(after).remove(root);
    let y = by_root(before).remove(root);
    assert forall|r: Seq<char>| #[trigger] x.contains_key(r) implies y.contains_key(r) && x[r]
        == y[r] by {
        let i = place(after, r);
        let j = before.index_of(after[i]);
        lemma_place(after, i);
        lemma_place(before, j);
    }
    assert forall|r: Seq<char>| #[trigger] y.contains_key(r) implies x.contains_key(r) by {
        let i = place(before, r);
        let j = after.index_of(before[i]);
        lemma_place(after, j);
    }
    assert(x =~= y);
}

impl ProjectMap {
    #[verifier::type_invariant]
    spec fn wf(self) -> bool {
        in_order(self.list@)
    }

    /// The recorded roots, in order.
    pub closed spec fn roots(self) -> Seq<Seq<char>> {
        self.list@.map_values(|p: Project| p.root@)
    }

    /// No projects.
    pub fn new() -> (projects: Self)
        ensures
            projects@ == Map::<Seq<char>, ConnectionView>::empty(),
            projects.roots() == Seq::<Seq<char>>::empty(),
    {
        let projects = ProjectMap { list: Vec::new() };
        assert(projects@ =~= Map::empty());
        assert(projects.roots() =~= Seq::empty());
        projects
    }

    /// Where `root` stands, or where it would have to be put.
    fn search(&self, root: &str) -> (found: Result<usize, usize>)
        ensures
            match found {
                Ok(i) => i < self.list@.len() && self.list@[i as int].root@ == root@,
                Err(i) => {
                    &&& i <= self.list@.len()
                    &&& !is_listed(self.list@, root@)
                    &&& forall|k: int|
                        0 <= k < i ==> text_precedes(#[trigger] self.list@[k].root@, root@)
                    &&& forall|k: int|
                        i <= k < self.list@.len() ==> text_precedes(
                            root@,
                            #[trigger] self.list@[k].root@,
                        )
                },
            },
    {
        proof {
            use_type_invariant(self);
        }
        let mut low: usize = 0;
        let mut high: usize = self.list.len();
        while low < high
            invariant
                low <= high <= self.list@.len(),
                in_order(self.list@),
                forall|k: int| 0 <= k < low ==> text_precedes(#[trigger] self.list@[k].root@, root@),
                forall|k: int|
                    high <= k < self.list@.len() ==> text_precedes(
                        root@,
                        #[trigger] self.list@[k].root@,
                    ),
            decreases high - low,
        {
            let mid: usize = low + (high - low) / 2;
            match compare_texts(self.list[mid].root.as_str(), root) {
                Standing::Same => {
                    return Ok(mid);
                },
                Standing::Before => {
                    assert forall|k: int| 0 <= k < mid + 1 implies text_precedes(
                        #[trigger] self.list@[k].root@,
                        root@,
                    ) by {
                        if k < mid {
                            law_text_order(
                                self.list@[k].root@,
                                self.list@[mid as int].root@,
                                root@,
                            );
                        }
                    }
                    low = mid + 1;
                },
                Standing::After => {
                    assert forall|k: int| mid <= k < self.list@.len() implies text_precedes(
                        root@,
                        #[trigger] self.list@[k].root@,
                    ) by {
                        if k > mid {
                            law_text_order(
                                root@,
                                self.list@[mid as int].root@,
                                self.list@[k].root@,
                            );
                        }
                    }
                    high = mid;
                },
            }
        }
        assert(!is_listed(self.list@, root@)) by {
            law_text_order(root@, root@, root@);
        }
        Err(low)
    }

    /// How many projects are recorded. The recorded roots are the keys of the
    /// map, each once and in order.
    pub fn len(&self) -> (n: usize)
        ensures
            self@.dom().finite(),
            n == self@.dom().len(),
            n == self.roots().len(),
            self.roots().to_set() == self@.dom(),
            forall|i: int, j: int|
                0 <= i < j < n ==> text_precedes(
                    #[trigger] self.roots()[i],
                    #[trigger] self.roots()[j],
                ),
    {
        proof {
            use_type_invariant(self);
            self.lemma_roots();
            self.roots().unique_seq_to_set();
            vstd::seq_lib::seq_to_set_is_finite(self.roots());
        }
        self.list.len()
    }

    /// Whether no project is recorded.
    pub fn is_empty(&self) -> (empty: bool)
        ensures
            empty == (self@ == Map::<Seq<char>, ConnectionView>::empty()),
    {
        proof {
            if self.list@.len() == 0 {
                assert(self@ =~= Map::empty());
            } else {
                assert(is_listed(self.list@, self.list@[0].root@));
                assert(self@.contains_key(self.list@[0].root@));
            }
        }
        self.list.len() == 0
    }

    /// The roots are the keys of the map, each once and in order.
    proof fn lemma_roots(&self)
        requires
            self.wf(),
        ensures
            self.roots().to_set() == self@.dom(),
            self.roots().no_duplicates(),
            forall|i: int, j: int|
                0 <= i < j < self.roots().len() ==> text_precedes(
                    #[trigger] self.roots()[i],
                    #[trigger] self.roots()[j],
                ),
    {
        let roots = self.roots();
        assert forall|root: Seq<char>| roots.to_set().contains(root) <==> self@.dom().contains(
            root,
        ) by {
            if roots.contains(root) {
                let i = choose|i: int| 0 <= i < roots.len() && roots[i] == root;
                assert(self.list@[i].root@ == root);
            }
            if is_listed(self.list@, root) {
                let i = place(self.list@, root);
                assert(roots[i] == root);
            }
        }
        assert(roots.to_set() =~= self@.dom());
        assert forall|i: int, j: int| 0 <= i < j < roots.len() implies text_precedes(
            #[trigger] roots[i],
            #[trigger] roots[j],
        ) by {
            assert(text_precedes(self.list@[i].root@, self.list@[j].root@));
        }
        assert forall|i: int, j: int|
            0 <= i < roots.len() && 0 <= j < roots.len() && i != j implies roots[i] != roots[j] by {
            law_text_order(roots[i], roots[i], roots[i]);
            if i < j {
                assert(text_precedes(roots[i], roots[j]));
            } else {
                assert(text_precedes(roots[j], roots[i]));
            }
        }
    }

    /// The project in the given place of the order.
    pub fn at(&self, i: usize) -> (project: &Project)
        requires
            i < self.roots().len(),
        ensures
            project.root@ == self.roots()[i as int],
            self@.contains_key(project.root@),
            self@[project.root@] == project.connection@,
    {
        proof {
            use_type_invariant(self);
            lemma_place(self.list@, i as int);
        }
        &self.list[i]
    }

    /// The connection recorded for `root`, if there is one.
    pub fn get(&self, root: &str) -> (connection: Option<&JupyterConnection>)
        ensures
            match connection {
                Some(c) => self@.contains_key(root@) && c@ == self@[root@],
                None => !self@.contains_key(root@),
            },
    {
        match self.search(root) {
            Ok(i) => {
                proof {
                    use_type_invariant(self);
                    lemma_place(self.list@, i as int);
                }
                Some(&self.list[i].connection)
            },
            Err(_) => None,
        }
    }

    /// Records `connection` for `root`, in place of what was recorded before.
    pub fn insert(&mut self, root: String, connection: JupyterConnection)
        ensures
            final(self)@ == old(self)@.insert(root@, connection@),
    {
        proof {
            use_type_invariant(&*self);
        }
        let ghost before = self.list@;
        let found = self.search(root.as_str());
        let ghost project = Project { root, connection };
        let mut list: Vec<Project> = Vec::new();
        std::mem::swap(&mut list, &mut self.list);
        match found {
            Ok(i) => {
                list.set(i, Project { root, connection });
                assert forall|a: int, b: int| 0 <= a < b < list@.len() implies text_precedes(
                    #[trigger] list@[a].root@,
                    #[trigger] list@[b].root@,
                ) by {
                    assert(text_precedes(before[a].root@, before[b].root@));
                }
            },
            Err(i) => {
                list.insert(i, Project { root, connection });
                assert forall|a: int, b: int| 0 <= a < b < list@.len() implies text_precedes(
                    #[trigger] list@[a].root@,
                    #[trigger] list@[b].root@,
                ) by {
                    let x = if a < i { a } else { a - 1 };
                    let y = if b < i { b } else { b - 1 };
                    if a != i && b != i {
                        assert(text_precedes(before[x].root@, before[y].root@));
                    } else if a == i {
                        assert(text_precedes(project.root@, before[y].root@));
                    } else {
                        assert(text_precedes(before[x].root@, project.root@));
                    }
                }
            },
        }
        proof {
            let i = match found {
                Ok(i) => i as int,
                Err(i) => i as int,
            };
            let replaced = found is Ok;
            assert forall|a: int|
                0 <= a < list@.len() && list@[a].root@ != project.root@ implies before.contains(
                #[trigger] list@[a],
            ) by {
                assert(list@[a] == before[if replaced || a < i { a } else { a - 1 }]);
            }
            assert forall|b: int|
                0 <= b < before.len() && before[b].root@ != project.root@ implies list@.contains(
                #[trigger] before[b],
            ) by {
                assert(before[b] == list@[if replaced || b < i { b } else { b + 1 }]);
            }
            lemma_same_but_one(before, list@, project.root@);
            lemma_place(list@, i);
            let new = by_root(list@);
            assert(new =~= new.remove(project.root@).insert(project.root@, project.connection@));
            assert(new =~= by_root(before).insert(project.root@, project.connection@));
        }
        self.list = list;
    }

    /// Forgets what is recorded for `root`.
    pub fn remove(&mut self, root: &str)
        ensures
            final(self)@ == old(self)@.remove(root@),
    {
        proof {
            use_type_invariant(&*self);
        }
        let ghost before = self.list@;
        match self.search(root) {
            Ok(i) => {
                let mut list: Vec<Project> = Vec::new();
                std::mem::swap(&mut list, &mut self.list);
                list.remove(i);
                proof {
                    assert forall|a: int, b: int| 0 <= a < b < list@.len() implies text_precedes(
                        #[trigger] list@[a].root@,
                        #[trigger] list@[b].root@,
                    ) by {
                        let x = if a < i { a } else { a + 1 };
                        let y = if b < i { b } else { b + 1 };
                        assert(text_precedes(before[x].root@, before[y].root@));
                    }
                    assert forall|a: int|
                        0 <= a < list@.len() && list@[a].root@ != root@ implies before.contains(
                        #[trigger] list@[a],
                    ) by {
                        assert(list@[a] == before[if a < i { a } else { a + 1 }]);
                    }
                    assert forall|b: int|
                        0 <= b < before.len() && before[b].root@ != root@ implies list@.contains(
                        #[trigger] before[b],
                    ) by {
                        assert(before[b] == list@[if b < i { b } else { b - 1 }]);
                    }
                    lemma_same_but_one(before, list@, root@);
                    assert(!is_listed(list@, root@)) by {
                        if is_listed(list@, root@) {
                            let a = place(list@, root@);
                            let x = if a < i { a } else { a + 1 };
                            assert(before[x].root@ == root@);
                            lemma_place(before, x);
                            lemma_place(before, i as int);
                        }
                    }
                    let new = by_root(list@);
                    assert(new =~= new.remove(root@));
                }
                self.list = list;
            },
            Err(_) => {
                assert(self@ =~= self@.remove(root@));
            },
        }
    }
}

} // verus!
