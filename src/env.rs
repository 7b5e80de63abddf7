//! Name bindings: the variables of a scope, the frames of special
//! (dynamically scoped, read-only) names, and the table of functions.
use vstd::prelude::*;
use vstd::string::*;
use crate::element::{
    first_binding, lemma_first_binding_absent, lemma_first_binding_agree, lemma_first_binding_keeps,
    lemma_first_binding_prefix, lemma_first_binding_push, Element,
};
use crate::text::same_text;
use crate::value::{option_view, Value, ValueV};

verus! {

/// Names bound to values; where a name occurs twice the first binding wins.
pub struct Bindings {
    entries: Vec<(String, Value)>,
}

impl View for Bindings {
    type V = Seq<(Seq<char>, ValueV)>;

    closed spec fn view(&self) -> Seq<(Seq<char>, ValueV)> {
        self.entries@.map_values(|p: (String, Value)| (p.0@, p.1@))
    }
}




impl Bindings {
    pub fn new() -> (r: Bindings)
        ensures
            r@.len() == 0,
    {
        Bindings { entries: Vec::new() }
    }

    /// Bindings of `key` alone.
    pub fn singleton(key: &str, value: Value) -> (r: Bindings)
        ensures
            r@ == seq![(key@, value@)],
    {
        let mut entries: Vec<(String, Value)> = Vec::new();
        entries.push((String::from_str(key), value));
        let r = Bindings { entries };
        assert(r@ =~= seq![(key@, value@)]);
        r
    }

    /// Adds a binding after the others; an earlier binding of `key` still
    /// wins.
    pub fn push(&mut self, key: String, value: Value)
        ensures
            final(self)@ == old(self)@.push((key@, value@)),
    {
        let ghost before = self@;
        self.entries.push((key, value));
        assert(self@ =~= before.push((key@, value@)));
    }

    /// The value bound to `key`.
    pub fn get(&self, key: &str) -> (r: Option<Value>)
        ensures
            option_view(r) == first_binding(self@, key@),
    {
        let n = self.entries.len();
        let mut i: usize = 0;
        while i < n
            invariant
                n == self@.len(),
                i <= n,
                forall|k: int| 0 <= k < i ==> (#[trigger] self@[k]).0 != key@,
            decreases n - i,
        {
            if same_text(self.entries[i].0.as_str(), key) {
                proof {
                    lemma_first_binding_prefix(self@, key@, i as int);
                }
                return Some(self.entries[i].1.duplicate());
            }
            i = i + 1;
        }
        proof {
            lemma_first_binding_absent(self@, key@);
        }
        None
    }

    /// Binds `key` to `value`, in place of its earlier value if it had one.
    pub fn set(&mut self, key: String, value: Value)
        ensures
            first_binding(final(self)@, key@) == Some(value@),
            forall|k: Seq<char>|
                k != key@ ==> first_binding(final(self)@, k) == #[trigger] first_binding(
                    old(self)@,
                    k,
                ),
    {
        let n = self.entries.len();
        let mut i: usize = 0;
        while i < n
            invariant
                *self == *old(self),
                n == self@.len(),
                i <= n,
                forall|k: int| 0 <= k < i ==> (#[trigger] self@[k]).0 != key@,
            decreases n - i,
        {
            if same_text(self.entries[i].0.as_str(), key.as_str()) {
                let ghost before = self@;
                let k = self.entries[i].0.clone();
                self.entries.set(i, (k, value));
                proof {
                    let after = self@;
                    assert(after.len() == before.len());
                    assert forall|j: int| 0 <= j < after.len() implies (#[trigger] after[j]).0
                        == before[j].0 by {}
                    assert forall|kk: Seq<char>| kk != key@ implies first_binding(after, kk)
                        == #[trigger] first_binding(before, kk) by {
                        assert forall|j: int| 0 <= j < after.len() && (#[trigger] after[j]).0
                            == kk implies after[j].1 == before[j].1 by {}
                        lemma_first_binding_agree(after, before, kk);
                    }
                    assert forall|j: int| 0 <= j < i implies (#[trigger] after[j]).0 != key@ by {
                        assert(after[j].0 == before[j].0);
                    }
                    lemma_first_binding_prefix(after, key@, i as int);
                }
                return;
            }
            i = i + 1;
        }
        let ghost before = self@;
        proof {
            lemma_first_binding_absent(before, key@);
        }
        self.entries.push((key, value));
        proof {
            assert(self@ == before.push((key@, value@)));
            assert forall|kk: Seq<char>| kk != key@ implies first_binding(self@, kk)
                == #[trigger] first_binding(before, kk) by {
                lemma_first_binding_push(before, (key@, value@), kk);
            }
            lemma_first_binding_push(before, (key@, value@), key@);
        }
    }

    /// Binds `key` to `value` unless `key` is bound already.
    pub fn add_if_unbound(&mut self, key: String, value: Value)
        ensures
            forall|k: Seq<char>|
                #[trigger] first_binding(old(self)@, k) is Some ==> first_binding(final(self)@, k)
                    == first_binding(old(self)@, k),
            first_binding(old(self)@, key@) is None ==> first_binding(final(self)@, key@) == Some(
                value@,
            ),
    {
        let ghost before = self@;
        self.entries.push((key, value));
        proof {
            assert(self@ == before.push((key@, value@)));
            assert forall|k: Seq<char>| #[trigger] first_binding(before, k) is Some implies first_binding(
                self@,
                k,
            ) == first_binding(before, k) by {
                if k == key@ {
                    lemma_first_binding_keeps(before, (key@, value@), k);
                } else {
                    lemma_first_binding_push(before, (key@, value@), k);
                }
            }
            lemma_first_binding_push(before, (key@, value@), key@);
        }
    }

    /// A copy with the same bindings.
    pub fn copy(&self) -> (r: Bindings)
        ensures
            r@ == self@,
    {
        let n = self.entries.len();
        let mut entries: Vec<(String, Value)> = Vec::new();
        let mut i: usize = 0;
        while i < n
            invariant
                n == self@.len(),
                i <= n,
                entries@.len() == i,
                forall|j: int|
                    0 <= j < i ==> (#[trigger] entries@[j]).0@ == self@[j].0 && entries@[j].1@
                        == self@[j].1,
            decreases n - i,
        {
            let k = self.entries[i].0.clone();
            let v = self.entries[i].1.duplicate();
            entries.push((k, v));
            i = i + 1;
        }
        let r = Bindings { entries };
        assert(r@ =~= self@);
        r
    }
}

/// The value of a special name: the innermost frame (the last one) that
/// binds it decides.
pub open spec fn special_lookup(frames: Seq<Seq<(Seq<char>, ValueV)>>, key: Seq<char>) -> Option<
    ValueV,
>
    decreases frames.len(),
{
    if frames.len() == 0 {
        None
    } else {
        match first_binding(frames.last(), key) {
            Some(v) => Some(v),
            None => special_lookup(frames.drop_last(), key),
        }
    }
}

pub open spec fn frames_view(frames: Seq<Bindings>) -> Seq<Seq<(Seq<char>, ValueV)>> {
    frames.map_values(|b: Bindings| b@)
}

/// Looks `key` up in the frames, innermost first.
pub fn find_special(frames: &Vec<Bindings>, key: &str) -> (r: Option<Value>)
    ensures
        option_view(r) == special_lookup(frames_view(frames@), key@),
{
    let mut i: usize = frames.len();
    assert(frames@.subrange(0, i as int) == frames@);
    while i > 0
        invariant
            i <= frames@.len(),
            special_lookup(frames_view(frames@), key@) == special_lookup(
                frames_view(frames@.subrange(0, i as int)),
                key@,
            ),
        decreases i,
    {
        let ghost prefix = frames_view(frames@.subrange(0, i as int));
        assert(prefix.last() == frames[i - 1]@);
        assert(prefix.drop_last() == frames_view(frames@.subrange(0, i - 1)));
        match frames[i - 1].get(key) {
            Some(v) => {
                return Some(v);
            },
            None => {},
        }
        i = i - 1;
    }
    None
}

/// Declared functions: each name bound to the `function` node that
/// declared it, whose children are the body.
pub struct FunctionTable<'a> {
    entries: Vec<(String, &'a Element)>,
}

impl<'a> View for FunctionTable<'a> {
    type V = Seq<(Seq<char>, &'a Element)>;

    closed spec fn view(&self) -> Seq<(Seq<char>, &'a Element)> {
        self.entries@.map_values(|p: (String, &'a Element)| (p.0@, p.1))
    }
}

impl<'a> FunctionTable<'a> {
    pub fn new() -> (r: FunctionTable<'a>)
        ensures
            r@.len() == 0,
    {
        FunctionTable { entries: Vec::new() }
    }

    /// The node that declared the function `name`.
    pub fn get(&self, name: &str) -> (r: Option<&'a Element>)
        ensures
            r == first_binding(self@, name@),
    {
        let n = self.entries.len();
        let mut i: usize = 0;
        while i < n
            invariant
                n == self@.len(),
                i <= n,
                forall|k: int| 0 <= k < i ==> (#[trigger] self@[k]).0 != name@,
            decreases n - i,
        {
            if same_text(self.entries[i].0.as_str(), name) {
                proof {
                    lemma_first_binding_prefix(self@, name@, i as int);
                }
                return Some(self.entries[i].1);
            }
            i = i + 1;
        }
        proof {
            lemma_first_binding_absent(self@, name@);
        }
        None
    }

    /// Declares `name`, replacing an earlier declaration of it.
    pub fn declare(&mut self, name: String, node: &'a Element)
        ensures
            first_binding(final(self)@, name@) == Some(node),
            forall|k: Seq<char>|
                k != name@ ==> first_binding(final(self)@, k) == #[trigger] first_binding(
                    old(self)@,
                    k,
                ),
    {
        let n = self.entries.len();
        let mut i: usize = 0;
        while i < n
            invariant
                *self == *old(self),
                n == self@.len(),
                i <= n,
                forall|k: int| 0 <= k < i ==> (#[trigger] self@[k]).0 != name@,
            decreases n - i,
        {
            if same_text(self.entries[i].0.as_str(), name.as_str()) {
                let ghost before = self@;
                let k = self.entries[i].0.clone();
                self.entries.set(i, (k, node));
                proof {
                    let after = self@;
                    assert forall|j: int| 0 <= j < after.len() implies (#[trigger] after[j]).0
                        == before[j].0 by {}
                    assert forall|kk: Seq<char>| kk != name@ implies first_binding(after, kk)
                        == #[trigger] first_binding(before, kk) by {
                        assert forall|j: int| 0 <= j < after.len() && (#[trigger] after[j]).0
                            == kk implies after[j].1 == before[j].1 by {}
                        lemma_first_binding_agree(after, before, kk);
                    }
                    assert forall|j: int| 0 <= j < i implies (#[trigger] after[j]).0 != name@ by {
                        assert(after[j].0 == before[j].0);
                    }
                    lemma_first_binding_prefix(after, name@, i as int);
                }
                return;
            }
            i = i + 1;
        }
        let ghost before = self@;
        proof {
            lemma_first_binding_absent(before, name@);
        }
        self.entries.push((name, node));
        proof {
            assert(self@ == before.push((name@, node)));
            assert forall|kk: Seq<char>| kk != name@ implies first_binding(self@, kk)
                == #[trigger] first_binding(before, kk) by {
                lemma_first_binding_push(before, (name@, node), kk);
            }
            lemma_first_binding_push(before, (name@, node), name@);
        }
    }
}

} // verus!
