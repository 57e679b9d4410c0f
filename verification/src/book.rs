//! Entries kept under distinct names, in the order of their names, with an
//! optional default name: the shape of the profile and persona files.
//!
//! Names are ordered as Rust orders strings, byte by byte of their UTF-8
//! form.

use vstd::prelude::*;
use vstd::utf8::*;
use crate::comments::{
    at_least, bytes_less, lemma_bytes_less_asymmetric, lemma_bytes_less_irreflexive,
    lemma_bytes_less_total, lemma_bytes_less_transitive,
};
use crate::text::str_eq;

verus! {

/// `a < b` for names.
pub open spec fn name_less(a: Seq<char>, b: Seq<char>) -> bool {
    bytes_less(encode_utf8(a), encode_utf8(b))
}

/// The order of names is a strict total order.
pub proof fn lemma_name_order(a: Seq<char>, b: Seq<char>, c: Seq<char>)
    ensures
        !name_less(a, a),
        name_less(a, b) ==> !name_less(b, a),
        name_less(a, b) && name_less(b, c) ==> name_less(a, c),
        a != b ==> name_less(a, b) || name_less(b, a),
{
    lemma_bytes_less_irreflexive(encode_utf8(a));
    lemma_bytes_less_asymmetric(encode_utf8(a), encode_utf8(b));
    lemma_bytes_less_transitive(encode_utf8(a), encode_utf8(b), encode_utf8(c));
    lemma_bytes_less_total(encode_utf8(a), encode_utf8(b));
    encode_utf8_decode_utf8(a);
    encode_utf8_decode_utf8(b);
}

/// Names in strictly increasing order.
pub open spec fn sorted<T>(e: Seq<(Seq<char>, T)>) -> bool {
    forall|i: int, j: int| 0 <= i < j < e.len() ==> name_less(#[trigger] e[i].0, #[trigger] e[j].0)
}

/// Whether an entry is named `k`.
pub open spec fn has_name<T>(e: Seq<(Seq<char>, T)>, k: Seq<char>) -> bool {
    exists|i: int| 0 <= i < e.len() && #[trigger] e[i].0 == k
}

/// The position of an entry named `k`.
pub open spec fn name_index<T>(e: Seq<(Seq<char>, T)>, k: Seq<char>) -> int {
    choose|i: int| 0 <= i < e.len() && #[trigger] e[i].0 == k
}

/// The entry named `k`.
pub open spec fn lookup<T>(e: Seq<(Seq<char>, T)>, k: Seq<char>) -> Option<T> {
    if has_name(e, k) {
        Some(e[name_index(e, k)].1)
    } else {
        None
    }
}

/// In sorted entries, each entry is the one its name looks up.
pub proof fn lemma_lookup_at<T>(e: Seq<(Seq<char>, T)>, i: int)
    requires
        sorted(e),
        0 <= i < e.len(),
    ensures
        lookup(e, e[i].0) == Some(e[i].1),
{
    let k = e[i].0;
    assert(exists|j: int| 0 <= j < e.len() && #[trigger] e[j].0 == k) by {
        assert(e[i].0 == k);
    }
    let j = name_index(e, k);
    if j != i {
        lemma_name_order(k, k, k);
        if j < i {
            assert(name_less(e[j].0, e[i].0));
        } else {
            assert(name_less(e[i].0, e[j].0));
        }
        assert(false);
    }
}

/// The value of a [`Book`]: its entries in order, and its default name.
pub struct BookView<T> {
    pub entries: Seq<(Seq<char>, T)>,
    pub default: Option<Seq<char>>,
}

/// Entries under distinct names, in name order, with an optional default
/// name (which need not name an entry).
pub struct Book<T> {
    entries: Vec<(String, T)>,
    default: Option<String>,
}

pub open spec fn opt_view(o: Option<String>) -> Option<Seq<char>> {
    match o {
        Some(s) => Some(s@),
        None => None,
    }
}

impl<T> View for Book<T> {
    type V = BookView<T>;

    closed spec fn view(&self) -> BookView<T> {
        BookView {
            entries: self.entries@.map_values(|p: (String, T)| (p.0@, p.1)),
            default: opt_view(self.default),
        }
    }
}

impl<T> Book<T> {
    #[verifier::type_invariant]
    closed spec fn names_in_order(self) -> bool {
        sorted(self@.entries)
    }

    /// An empty book without a default.
    pub fn new() -> (b: Self)
        ensures
            b@.entries == Seq::<(Seq<char>, T)>::empty(),
            b@.default is None,
    {
        let b = Book { entries: Vec::new(), default: None };
        assert(b@.entries =~= Seq::<(Seq<char>, T)>::empty());
        b
    }

    /// How many entries there are.
    pub fn len(&self) -> (n: usize)
        ensures
            n == self@.entries.len(),
    {
        self.entries.len()
    }

    /// The `i`th entry in name order.
    pub fn entry_at(&self, i: usize) -> (r: (&String, &T))
        requires
            i < self@.entries.len(),
        ensures
            (r.0@, *r.1) == self@.entries[i as int],
    {
        let p = &self.entries[i];
        (&p.0, &p.1)
    }

    /// The default name.
    pub fn default_name(&self) -> (r: &Option<String>)
        ensures
            opt_view(*r) == self@.default,
    {
        &self.default
    }

    /// Whether `name` is the default name.
    pub fn is_default(&self, name: &str) -> (r: bool)
        ensures
            r == (self@.default == Some(name@)),
    {
        match &self.default {
            Some(d) => str_eq(d.as_str(), name),
            None => false,
        }
    }

    /// Sets the default name.
    pub fn set_default(&mut self, d: Option<String>)
        ensures
            final(self)@.entries == old(self)@.entries,
            final(self)@.default == opt_view(d),
    {
        proof {
            use_type_invariant(&*self);
        }
        self.default = d;
    }

    fn position(&self, name: &str) -> (pos: usize)
        ensures
            pos <= self@.entries.len(),
            forall|j: int| 0 <= j < pos ==> name_less(#[trigger] self@.entries[j].0, name@),
            pos < self@.entries.len() ==> !name_less(self@.entries[pos as int].0, name@),
    {
        proof {
            use_type_invariant(self);
        }
        let mut pos: usize = 0;
        while pos < self.entries.len() && !at_least(self.entries[pos].0.as_str(), name)
            invariant
                pos <= self.entries@.len(),
                forall|j: int| 0 <= j < pos ==> name_less(#[trigger] self@.entries[j].0, name@),
            decreases self.entries@.len() - pos,
        {
            assert(self@.entries[pos as int].0 == self.entries@[pos as int].0@);
            pos = pos + 1;
        }
        if pos < self.entries.len() {
            assert(self@.entries[pos as int].0 == self.entries@[pos as int].0@);
        }
        pos
    }

    /// The entry named `name`.
    pub fn get(&self, name: &str) -> (r: Option<&T>)
        ensures
            match r {
                Some(v) => lookup(self@.entries, name@) == Some(*v),
                None => lookup(self@.entries, name@) is None,
            },
    {
        proof {
            use_type_invariant(self);
        }
        let pos = self.position(name);
        if pos < self.entries.len() && str_eq(self.entries[pos].0.as_str(), name) {
            proof {
                assert(self@.entries[pos as int] == (self.entries@[pos as int].0@, self.entries@[pos as int].1));
                lemma_lookup_at(self@.entries, pos as int);
            }
            return Some(&self.entries[pos].1);
        }
        proof {
            let e = self@.entries;
            assert forall|j: int| 0 <= j < e.len() implies #[trigger] e[j].0 != name@ by {
                lemma_name_order(e[j].0, name@, e[j].0);
                if j > pos {
                    lemma_name_order(e[pos as int].0, e[j].0, name@);
                    lemma_name_order(name@, e[pos as int].0, e[j].0);
                }
                if j == pos {
                    assert(e[pos as int].0 == self.entries@[pos as int].0@);
                }
            }
        }
        None
    }

    /// Whether an entry is named `name`.
    pub fn contains(&self, name: &str) -> (r: bool)
        ensures
            r == lookup(self@.entries, name@) is Some,
    {
        self.get(name).is_some()
    }

    /// Puts `value` under `name`, replacing any entry of that name.
    pub fn insert(&mut self, name: String, value: T)
        ensures
            final(self)@.default == old(self)@.default,
            forall|k: Seq<char>|
                #[trigger] lookup(final(self)@.entries, k) == if k == name@ {
                    Some(value)
                } else {
                    lookup(old(self)@.entries, k)
                },
    {
        proof {
            use_type_invariant(&*self);
        }
        let pos = self.position(name.as_str());
        let ghost e0 = self@.entries;
        let ghost n = name@;
        if pos < self.entries.len() && str_eq(self.entries[pos].0.as_str(), name.as_str()) {
            let ghost old_entries = self.entries@;
            assert(e0[pos as int].0 == n);
            let mut entries: Vec<(String, T)> = Vec::new();
            std::mem::swap(&mut entries, &mut self.entries);
            entries.set(pos, (name, value));
            proof {
                let e1 = entries@.map_values(|p: (String, T)| (p.0@, p.1));
                assert(e1 =~= e0.update(pos as int, (n, value)));
                assert(sorted(e1)) by {
                    assert forall|i: int, j: int| 0 <= i < j < e1.len() implies name_less(
                        #[trigger] e1[i].0,
                        #[trigger] e1[j].0,
                    ) by {
                        assert(e1[i].0 == e0[i].0 && e1[j].0 == e0[j].0);
                    }
                }
                assert forall|k: Seq<char>|
                    #[trigger] lookup(e1, k) == if k == n {
                        Some(value)
                    } else {
                        lookup(e0, k)
                    } by {
                    if k == n {
                        lemma_lookup_at(e1, pos as int);
                    } else if exists|i: int| 0 <= i < e0.len() && #[trigger] e0[i].0 == k {
                        let i = choose|i: int| 0 <= i < e0.len() && #[trigger] e0[i].0 == k;
                        lemma_lookup_at(e0, i);
                        lemma_lookup_at(e1, i);
                    } else {
                        assert forall|i: int| 0 <= i < e1.len() implies #[trigger] e1[i].0 != k by {
                            assert(e1[i].0 == e0[i].0 || i == pos);
                        }
                    }
                }
            }
            self.entries = entries;
        } else {
            proof {
                assert forall|j: int| 0 <= j < e0.len() implies #[trigger] e0[j].0 != n by {
                    lemma_name_order(e0[j].0, n, e0[j].0);
                    if j > pos {
                        lemma_name_order(e0[pos as int].0, e0[j].0, n);
                        lemma_name_order(n, e0[pos as int].0, e0[j].0);
                    }
                    if j == pos {
                        assert(e0[pos as int].0 == self.entries@[pos as int].0@);
                    }
                }
                if pos < e0.len() {
                    lemma_name_order(n, e0[pos as int].0, n);
                    assert(name_less(n, e0[pos as int].0));
                }
            }
            let mut entries: Vec<(String, T)> = Vec::new();
            std::mem::swap(&mut entries, &mut self.entries);
            entries.insert(pos, (name, value));
            proof {
                let e1 = entries@.map_values(|p: (String, T)| (p.0@, p.1));
                assert(e1 =~= e0.insert(pos as int, (n, value)));
                assert(sorted(e1)) by {
                    assert forall|i: int, j: int| 0 <= i < j < e1.len() implies name_less(
                        #[trigger] e1[i].0,
                        #[trigger] e1[j].0,
                    ) by {
                        if j < pos {
                            assert(e1[i] == e0[i] && e1[j] == e0[j]);
                        } else if j == pos {
                            assert(e1[i] == e0[i]);
                        } else if i < pos {
                            assert(e1[i] == e0[i] && e1[j] == e0[j - 1]);
                            lemma_name_order(e0[i].0, n, e0[j - 1].0);
                            if j - 1 > pos {
                                lemma_name_order(n, e0[pos as int].0, e0[j - 1].0);
                            }
                        } else if i == pos {
                            assert(e1[j] == e0[j - 1]);
                            if j - 1 > pos {
                                lemma_name_order(n, e0[pos as int].0, e0[j - 1].0);
                            }
                        } else {
                            assert(e1[i] == e0[i - 1] && e1[j] == e0[j - 1]);
                        }
                    }
                }
                assert forall|k: Seq<char>|
                    #[trigger] lookup(e1, k) == if k == n {
                        Some(value)
                    } else {
                        lookup(e0, k)
                    } by {
                    if k == n {
                        lemma_lookup_at(e1, pos as int);
                    } else if exists|i: int| 0 <= i < e0.len() && #[trigger] e0[i].0 == k {
                        let i = choose|i: int| 0 <= i < e0.len() && #[trigger] e0[i].0 == k;
                        lemma_lookup_at(e0, i);
                        if i < pos {
                            assert(e1[i] == e0[i]);
                            lemma_lookup_at(e1, i);
                        } else {
                            assert(e1[i + 1] == e0[i]);
                            lemma_lookup_at(e1, i + 1);
                        }
                    } else {
                        assert forall|i: int| 0 <= i < e1.len() implies #[trigger] e1[i].0 != k by {
                            if i < pos {
                                assert(e1[i] == e0[i]);
                            } else if i > pos {
                                assert(e1[i] == e0[i - 1]);
                            }
                        }
                    }
                }
            }
            self.entries = entries;
        }
    }

    /// Takes out the entry named `name`.
    pub fn remove(&mut self, name: &str) -> (r: Option<T>)
        ensures
            r == lookup(old(self)@.entries, name@),
            r is None ==> final(self)@ == old(self)@,
            final(self)@.default == old(self)@.default,
            forall|k: Seq<char>|
                #[trigger] lookup(final(self)@.entries, k) == if k == name@ {
                    None
                } else {
                    lookup(old(self)@.entries, k)
                },
    {
        proof {
            use_type_invariant(&*self);
        }
        let pos = self.position(name);
        let ghost e0 = self@.entries;
        if pos < self.entries.len() && str_eq(self.entries[pos].0.as_str(), name) {
            assert(e0[pos as int].0 == name@);
            proof {
                lemma_lookup_at(e0, pos as int);
            }
            let mut entries: Vec<(String, T)> = Vec::new();
            std::mem::swap(&mut entries, &mut self.entries);
            let (_, v) = entries.remove(pos);
            proof {
                let e1 = entries@.map_values(|p: (String, T)| (p.0@, p.1));
                assert(e1 =~= e0.remove(pos as int));
                assert(sorted(e1)) by {
                    assert forall|i: int, j: int| 0 <= i < j < e1.len() implies name_less(
                        #[trigger] e1[i].0,
                        #[trigger] e1[j].0,
                    ) by {
                        let i0 = if i < pos {
                            i
                        } else {
                            i + 1
                        };
                        let j0 = if j < pos {
                            j
                        } else {
                            j + 1
                        };
                        assert(e1[i] == e0[i0] && e1[j] == e0[j0]);
                    }
                }
                assert forall|k: Seq<char>|
                    #[trigger] lookup(e1, k) == if k == name@ {
                        None
                    } else {
                        lookup(e0, k)
                    } by {
                    if k == name@ {
                        assert forall|i: int| 0 <= i < e1.len() implies #[trigger] e1[i].0 != k by {
                            let i0 = if i < pos {
                                i
                            } else {
                                i + 1
                            };
                            assert(e1[i] == e0[i0]);
                            lemma_name_order(k, k, k);
                            if i0 < pos {
                                assert(name_less(e0[i0].0, e0[pos as int].0));
                            } else {
                                assert(name_less(e0[pos as int].0, e0[i0].0));
                            }
                        }
                    } else if exists|i: int| 0 <= i < e0.len() && #[trigger] e0[i].0 == k {
                        let i = choose|i: int| 0 <= i < e0.len() && #[trigger] e0[i].0 == k;
                        lemma_lookup_at(e0, i);
                        if i < pos {
                            assert(e1[i] == e0[i]);
                            lemma_lookup_at(e1, i);
                        } else {
                            assert(i != pos);
                            assert(e1[i - 1] == e0[i]);
                            lemma_lookup_at(e1, i - 1);
                        }
                    } else {
                        assert forall|i: int| 0 <= i < e1.len() implies #[trigger] e1[i].0 != k by {
                            if i < pos {
                                assert(e1[i] == e0[i]);
                            } else {
                                assert(e1[i] == e0[i + 1]);
                            }
                        }
                    }
                }
            }
            self.entries = entries;
            return Some(v);
        }
        proof {
            assert forall|j: int| 0 <= j < e0.len() implies #[trigger] e0[j].0 != name@ by {
                lemma_name_order(e0[j].0, name@, e0[j].0);
                if j > pos {
                    lemma_name_order(e0[pos as int].0, e0[j].0, name@);
                    lemma_name_order(name@, e0[pos as int].0, e0[j].0);
                }
                if j == pos {
                    assert(e0[pos as int].0 == self.entries@[pos as int].0@);
                }
            }
        }
        None
    }
}

} // verus!
