//! A name trie for option-alias matching: maps names (sequences of
//! characters) to values, and can fetch either an exact match or every
//! value whose name extends a given prefix — so an option may be
//! abbreviated to any unambiguous prefix.

use vstd::prelude::*;

verus! {

/// One trie node: an optional value bound to the name that ends here, and
/// one subtree per distinct next character.
pub struct NameTrie<T> {
    pub t: Option<T>,
    pub children: Vec<(char, NameTrie<T>)>,
}

impl<T> NameTrie<T> {
    /// The subtree of `cs` labelled `c`, by first match.
    pub open spec fn find_child(cs: Seq<(char, NameTrie<T>)>, c: char) -> Option<NameTrie<T>>
        decreases cs.len(),
    {
        if cs.len() == 0 {
            None
        } else if cs[0].0 == c {
            Some(cs[0].1)
        } else {
            Self::find_child(cs.drop_first(), c)
        }
    }

    /// Child labels are distinct at every node, so each name is bound at
    /// most once.
    pub open spec fn wf(self) -> bool
        decreases self,
    {
        &&& forall|i: int, j: int|
            0 <= i < j < self.children@.len() ==> (#[trigger] self.children@[i].0) != (
            #[trigger] self.children@[j].0)
        &&& forall|i: int|
            0 <= i < self.children@.len() ==> (#[trigger] self.children@[i].1).wf()
    }

    /// The node reached by walking `name`, if the path exists.
    pub open spec fn descend(self, name: Seq<char>) -> Option<NameTrie<T>>
        decreases name.len(),
    {
        if name.len() == 0 {
            Some(self)
        } else {
            match Self::find_child(self.children@, name[0]) {
                None => None,
                Some(c) => c.descend(name.drop_first()),
            }
        }
    }

    /// The value bound to exactly `name`, if any.
    pub open spec fn lookup(self, name: Seq<char>) -> Option<T>
        decreases name.len(),
    {
        if name.len() == 0 {
            self.t
        } else {
            match Self::find_child(self.children@, name[0]) {
                None => None,
                Some(c) => c.lookup(name.drop_first()),
            }
        }
    }

    /// The value bound at this node itself, as a sequence.
    pub open spec fn head_seq(self) -> Seq<T> {
        match self.t {
            Some(v) => seq![v],
            None => Seq::empty(),
        }
    }

    /// Every value bound in this subtree, in depth-first child order.
    pub open spec fn values(self) -> Seq<T>
        decreases self, self.children@.len() + 1,
    {
        self.head_seq() + self.values_upto(self.children@.len() as int)
    }

    /// Every value bound under the first `n` children.
    pub open spec fn values_upto(self, n: int) -> Seq<T>
        decreases self, n,
        via Self::values_upto_dec
    {
        if 0 < n <= self.children@.len() {
            self.values_upto(n - 1) + self.children@[n - 1].1.values()
        } else {
            Seq::empty()
        }
    }

    #[via_fn]
    proof fn values_upto_dec(self, n: int) {
        if 0 < n <= self.children@.len() {
            assert(decreases_to!(self => self.children@[n - 1].1));
        }
    }

    pub fn new() -> (r: NameTrie<T>)
        ensures
            r.t is None,
            r.children@ == Seq::<(char, NameTrie<T>)>::empty(),
            r.wf(),
            forall|name: Seq<char>| r.lookup(name) is None,
            r.values() == Seq::<T>::empty(),
    {
        let r = NameTrie { t: None, children: Vec::new() };
        proof {
            assert forall|name: Seq<char>| r.lookup(name) is None by {
                if name.len() != 0 {
                    assert(NameTrie::<T>::find_child(r.children@, name[0]) is None);
                }
            }
            assert(r.values() =~= Seq::<T>::empty());
        }
        r
    }

    /// The index whose label matches `c`, scanning left to right as the
    /// first-match `find_child` does.
    fn find_child_index(&self, c: char) -> (r: Option<usize>)
        ensures
            match r {
                Some(i) => {
                    &&& i < self.children@.len()
                    &&& self.children@[i as int].0 == c
                    &&& forall|j: int| 0 <= j < i ==> (#[trigger] self.children@[j].0) != c
                    &&& Self::find_child(self.children@, c) == Some(self.children@[i as int].1)
                },
                None => {
                    &&& Self::find_child(self.children@, c) is None
                    &&& forall|j: int|
                        0 <= j < self.children@.len() ==> (#[trigger] self.children@[j].0) != c
                },
            },
    {
        let mut i: usize = 0;
        while i < self.children.len()
            invariant
                i <= self.children@.len(),
                forall|j: int| 0 <= j < i ==> (#[trigger] self.children@[j].0) != c,
            decreases self.children@.len() - i,
        {
            if self.children[i].0 == c {
                proof {
                    lemma_find_child_at(self.children@, c, i as int);
                }
                return Some(i);
            }
            i += 1;
        }
        proof {
            lemma_find_child_none(self.children@, c);
        }
        None
    }

    /// Bind `name` to `t`. The name must be free: the option tables built
    /// on this trie treat a colliding registration as a programming error.
    pub fn insert(&mut self, name: &str, t: T)
        requires
            old(self).wf(),
            old(self).lookup(name@) is None,
        ensures
            final(self).wf(),
            final(self).lookup(name@) == Some(t),
            forall|k: Seq<char>|
                k != name@ ==> #[trigger] final(self).lookup(k) == old(self).lookup(k),
        decreases name@.len(),
    {
        let len = name.unicode_len();
        if len == 0 {
            self.t = Some(t);
            proof {
                assert forall|k: Seq<char>| k != name@ implies #[trigger] self.lookup(k) == old(
                    self,
                ).lookup(k) by {
                    if k.len() == 0 {
                        assert(k =~= name@);
                    }
                }
            }
            return ;
        }
        let c = name.get_char(0);
        let rest = name.substring_char(1, len);
        proof {
            assert(rest@ =~= name@.drop_first());
        }
        match self.find_child_index(c) {
            Some(i) => {
                let mut pair = self.children.remove(i);
                proof {
                    assert(old(self).lookup(name@) == pair.1.lookup(rest@));
                }
                pair.1.insert(rest, t);
                let ghost newchild = pair.1;
                self.children.insert(i, pair);
                proof {
                    let cs = old(self).children@;
                    let cs2 = self.children@;
                    assert(cs2 =~= cs.update(i as int, (c, newchild)));
                    assert forall|j: int| 0 <= j < cs2.len() implies (#[trigger] cs2[j].0)
                        == cs[j].0 && (j != i ==> cs2[j].1 == cs[j].1) by {}
                    lemma_find_child_at(cs2, c, i as int);
                    assert(self.lookup(name@) == newchild.lookup(name@.drop_first()));
                    assert(newchild.lookup(rest@) == Some(t));
                    assert forall|k: Seq<char>| k != name@ implies #[trigger] self.lookup(k) == old(
                        self,
                    ).lookup(k) by {
                        if k.len() == 0 {
                        } else if k[0] != c {
                            lemma_find_child_except(cs, cs2, i as int, k[0]);
                        } else {
                            lemma_find_child_at(cs, c, i as int);
                            assert(k.drop_first() != rest@) by {
                                if k.drop_first() == rest@ {
                                    assert forall|j: int| 0 <= j < k.len() implies k[j] == name@[j] by {
                                        if j > 0 {
                                            assert(k[j] == k.drop_first()[j - 1]);
                                            assert(name@[j] == name@.drop_first()[j - 1]);
                                        }
                                    }
                                    assert(k =~= name@);
                                }
                            }
                            assert(newchild.lookup(k.drop_first()) == old(self).children@[i as int].1.lookup(
                                k.drop_first(),
                            ));
                        }
                    }
                    assert(self.wf()) by {
                        assert forall|a: int|
                            0 <= a < cs2.len() implies (#[trigger] cs2[a].1).wf() by {
                            if a != i {
                                assert(cs2[a].1 == cs[a].1);
                            }
                        }
                    }
                }
            },
            None => {
                let mut node = NameTrie::new();
                node.insert(rest, t);
                let ghost newchild = node;
                self.children.push((c, node));
                proof {
                    let cs = old(self).children@;
                    let cs2 = self.children@;
                    assert(cs2 =~= cs.push((c, newchild)));
                    lemma_find_child_push(cs, (c, newchild), c);
                    assert(self.lookup(name@) == newchild.lookup(rest@));
                    assert forall|k: Seq<char>| k != name@ implies #[trigger] self.lookup(k) == old(
                        self,
                    ).lookup(k) by {
                        if k.len() == 0 {
                        } else {
                            lemma_find_child_push(cs, (c, newchild), k[0]);
                            if k[0] == c {
                                assert(k.drop_first() != rest@) by {
                                    if k.drop_first() == rest@ {
                                        assert forall|j: int| 0 <= j < k.len() implies k[j]
                                            == name@[j] by {
                                            if j > 0 {
                                                assert(k[j] == k.drop_first()[j - 1]);
                                                assert(name@[j] == name@.drop_first()[j - 1]);
                                            }
                                        }
                                        assert(k =~= name@);
                                    }
                                }
                                assert(self.lookup(k) == newchild.lookup(k.drop_first()));
                                assert(newchild.lookup(k.drop_first()) is None);
                                assert(old(self).lookup(k) is None);
                            } else {
                                assert(NameTrie::find_child(cs2, k[0]) == NameTrie::find_child(
                                    cs,
                                    k[0],
                                ));
                            }
                        }
                    }
                    assert(self.wf()) by {
                        assert forall|a: int, b: int|
                            0 <= a < b < cs2.len() implies (#[trigger] cs2[a].0) != (
                        #[trigger] cs2[b].0) by {
                            if b == cs2.len() - 1 {
                                assert(cs2[a].0 == cs[a].0);
                            }
                        }
                        assert forall|a: int|
                            0 <= a < cs2.len() implies (#[trigger] cs2[a].1).wf() by {
                            if a != cs2.len() - 1 {
                                assert(cs2[a].1 == cs[a].1);
                            }
                        }
                    }
                }
            },
        }
    }
}

impl<T: Copy> NameTrie<T> {
    /// Append every value of this subtree to `acc`, in depth-first child
    /// order.
    fn collect(&self, acc: &mut Vec<T>)
        ensures
            final(acc)@ == old(acc)@ + self.values(),
        decreases *self,
    {
        if let Some(t) = &self.t {
            acc.push(*t);
        }
        let mut i: usize = 0;
        while i < self.children.len()
            invariant
                i <= self.children@.len(),
                acc@ == old(acc)@ + self.head_seq() + self.values_upto(i as int),
            decreases self.children@.len() - i,
        {
            proof {
                assert(decreases_to!(*self => self.children@[i as int].1));
            }
            self.children[i].1.collect(acc);
            i += 1;
        }
        proof {
            assert(acc@ =~= old(acc)@ + self.values());
        }
    }

    /// All values matching `name`: the value bound to exactly `name` if
    /// there is one (an exact match is honoured even when longer names
    /// extend it), else every value whose name extends `name`, in
    /// depth-first order. An empty result means nothing matches.
    pub fn get(&self, name: &str) -> (r: Vec<T>)
        ensures
            match self.descend(name@) {
                None => r@ == Seq::<T>::empty(),
                Some(st) => {
                    if st.t is Some {
                        r@ == seq![st.t->0]
                    } else {
                        r@ == st.values()
                    }
                },
            },
    {
        let len = name.unicode_len();
        let mut n: &NameTrie<T> = self;
        let mut i: usize = 0;
        proof {
            assert(name@.skip(0) =~= name@);
        }
        while i < len
            invariant
                i <= len,
                len == name@.len(),
                self.descend(name@) == n.descend(name@.skip(i as int)),
            decreases len - i,
        {
            let c = name.get_char(i);
            let ghost s = name@.skip(i as int);
            proof {
                assert(s[0] == name@[i as int]);
                assert(s.drop_first() =~= name@.skip(i as int + 1));
            }
            match n.find_child_index(c) {
                None => {
                    proof {
                        assert(n.descend(s) is None);
                    }
                    return Vec::new();
                },
                Some(j) => {
                    n = &n.children[j].1;
                    i += 1;
                },
            }
        }
        proof {
            assert(name@.skip(len as int) =~= Seq::<char>::empty());
            assert(self.descend(name@) == Some(*n));
        }
        match &n.t {
            Some(t) => {
                let mut r = Vec::new();
                r.push(*t);
                r
            },
            None => {
                let mut acc = Vec::new();
                n.collect(&mut acc);
                proof {
                    assert(acc@ =~= n.values());
                }
                acc
            },
        }
    }
}

/// The exact lookup is the walk to the node plus its own binding, so a
/// client can carry `insert`'s guarantees over to what `get` returns: a
/// freshly inserted name descends to a node holding exactly that value.
pub proof fn lemma_lookup_descend<T>(t: NameTrie<T>, name: Seq<char>)
    ensures
        t.lookup(name) == (match t.descend(name) {
            None => None::<T>,
            Some(st) => st.t,
        }),
    decreases name.len(),
{
    if name.len() > 0 {
        match NameTrie::<T>::find_child(t.children@, name[0]) {
            None => {},
            Some(c) => {
                lemma_lookup_descend(c, name.drop_first());
            },
        }
    }
}

/// `find_child` returns the first index whose label matches.
proof fn lemma_find_child_at<T>(cs: Seq<(char, NameTrie<T>)>, c: char, i: int)
    requires
        0 <= i < cs.len(),
        cs[i].0 == c,
        forall|j: int| 0 <= j < i ==> (#[trigger] cs[j].0) != c,
    ensures
        NameTrie::find_child(cs, c) == Some(cs[i].1),
    decreases i,
{
    if i > 0 {
        assert forall|j: int| 0 <= j < i - 1 implies (#[trigger] cs.drop_first()[j].0) != c by {
            assert(cs.drop_first()[j] == cs[j + 1]);
        }
        assert(cs.drop_first()[i - 1] == cs[i]);
        lemma_find_child_at(cs.drop_first(), c, i - 1);
    }
}

/// No label matches, so `find_child` finds nothing.
proof fn lemma_find_child_none<T>(cs: Seq<(char, NameTrie<T>)>, c: char)
    requires
        forall|j: int| 0 <= j < cs.len() ==> (#[trigger] cs[j].0) != c,
    ensures
        NameTrie::find_child(cs, c) is None,
    decreases cs.len(),
{
    if cs.len() > 0 {
        assert forall|j: int| 0 <= j < cs.drop_first().len() implies (
        #[trigger] cs.drop_first()[j].0) != c by {
            assert(cs.drop_first()[j] == cs[j + 1]);
        }
        lemma_find_child_none(cs.drop_first(), c);
    }
}

/// Replacing the subtree at one index, label unchanged, does not change
/// what `find_child` returns for any other label.
proof fn lemma_find_child_except<T>(
    cs: Seq<(char, NameTrie<T>)>,
    cs2: Seq<(char, NameTrie<T>)>,
    i: int,
    c2: char,
)
    requires
        cs.len() == cs2.len(),
        0 <= i < cs.len(),
        forall|j: int| 0 <= j < cs.len() ==> (#[trigger] cs2[j].0) == cs[j].0,
        forall|j: int| 0 <= j < cs.len() && j != i ==> (#[trigger] cs2[j].1) == cs[j].1,
        cs[i].0 != c2,
    ensures
        NameTrie::find_child(cs2, c2) == NameTrie::find_child(cs, c2),
    decreases cs.len(),
{
    if cs[0].0 == c2 {
        assert(cs2[0] == cs[0]);
    } else if i == 0 {
        assert forall|j: int| 0 <= j < cs.drop_first().len() implies cs.drop_first()[j]
            == cs2.drop_first()[j] by {
            assert(cs.drop_first()[j] == cs[j + 1]);
            assert(cs2.drop_first()[j] == cs2[j + 1]);
            assert(cs2[j + 1].0 == cs[j + 1].0 && cs2[j + 1].1 == cs[j + 1].1);
        }
        assert(cs.drop_first() =~= cs2.drop_first());
    } else {
        assert forall|j: int| 0 <= j < cs.drop_first().len() implies (
        #[trigger] cs2.drop_first()[j].0) == cs.drop_first()[j].0 && (j != i - 1
            ==> cs2.drop_first()[j].1 == cs.drop_first()[j].1) by {
            assert(cs.drop_first()[j] == cs[j + 1]);
            assert(cs2.drop_first()[j] == cs2[j + 1]);
        }
        assert(cs.drop_first()[i - 1] == cs[i]);
        lemma_find_child_except(cs.drop_first(), cs2.drop_first(), i - 1, c2);
    }
}

/// Appending one child changes `find_child` only for the appended label,
/// and only when that label was absent.
proof fn lemma_find_child_push<T>(cs: Seq<(char, NameTrie<T>)>, x: (char, NameTrie<T>), c2: char)
    ensures
        NameTrie::find_child(cs.push(x), c2) == (if NameTrie::find_child(cs, c2) is Some {
            NameTrie::find_child(cs, c2)
        } else if x.0 == c2 {
            Some(x.1)
        } else {
            None
        }),
    decreases cs.len(),
{
    if cs.len() == 0 {
        assert(cs.push(x)[0] == x);
        if x.0 != c2 {
            assert(cs.push(x).drop_first() =~= Seq::<(char, NameTrie<T>)>::empty());
            assert(NameTrie::<T>::find_child(Seq::empty(), c2) is None);
            assert(NameTrie::find_child(cs.push(x), c2) is None);
        }
        assert(NameTrie::<T>::find_child(cs, c2) is None);
    } else {
        assert(cs.push(x)[0] == cs[0]);
        assert(cs.push(x).drop_first() =~= cs.drop_first().push(x));
        lemma_find_child_push(cs.drop_first(), x, c2);
    }
}

} // verus!
