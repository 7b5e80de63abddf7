//! The parsed markup tree that the interpreter walks.
use vstd::prelude::*;
use vstd::string::*;
use crate::text::same_text;

verus! {

/// A node of the tree: a tag name, an optional namespace, attributes in
/// document order, and child nodes in document order. A text node has an
/// empty name and carries its text in the attribute `_text`.
#[derive(Debug)]
pub struct Element {
    pub name: String,
    pub namespace: Option<String>,
    pub attributes: Vec<(String, String)>,
    pub children: Vec<Element>,
}

/// The first value bound to `key` in a list of pairs.
pub open spec fn first_binding<V>(pairs: Seq<(Seq<char>, V)>, key: Seq<char>) -> Option<V>
    decreases pairs.len(),
{
    if pairs.len() == 0 {
        None
    } else if pairs[0].0 == key {
        Some(pairs[0].1)
    } else {
        first_binding(pairs.drop_first(), key)
    }
}

pub proof fn lemma_first_binding_prefix<V>(pairs: Seq<(Seq<char>, V)>, key: Seq<char>, i: int)
    requires
        0 <= i < pairs.len(),
        forall|k: int| 0 <= k < i ==> (#[trigger] pairs[k]).0 != key,
    ensures
        first_binding(pairs, key) == first_binding(pairs.subrange(i, pairs.len() as int), key),
    decreases i,
{
    if i > 0 {
        lemma_first_binding_prefix(pairs.drop_first(), key, i - 1);
        assert(pairs.drop_first().subrange(i - 1, pairs.drop_first().len() as int)
            == pairs.subrange(i, pairs.len() as int));
    } else {
        assert(pairs.subrange(0, pairs.len() as int) == pairs);
    }
}

pub proof fn lemma_first_binding_absent<V>(pairs: Seq<(Seq<char>, V)>, key: Seq<char>)
    requires
        forall|k: int| 0 <= k < pairs.len() ==> (#[trigger] pairs[k]).0 != key,
    ensures
        first_binding(pairs, key) is None,
    decreases pairs.len(),
{
    if pairs.len() > 0 {
        assert forall|k: int| 0 <= k < pairs.drop_first().len() implies (
        #[trigger] pairs.drop_first()[k]).0 != key by {
            assert(pairs.drop_first()[k] == pairs[k + 1]);
        }
        lemma_first_binding_absent(pairs.drop_first(), key);
    }
}

/// Two lists with the same names, and the same values wherever the name is
/// `key`, bind `key` alike.
pub proof fn lemma_first_binding_agree<V>(p: Seq<(Seq<char>, V)>, q: Seq<(Seq<char>, V)>, key: Seq<char>)
    requires
        p.len() == q.len(),
        forall|i: int| 0 <= i < p.len() ==> (#[trigger] p[i]).0 == q[i].0,
        forall|i: int| 0 <= i < p.len() && (#[trigger] p[i]).0 == key ==> p[i].1 == q[i].1,
    ensures
        first_binding(p, key) == first_binding(q, key),
    decreases p.len(),
{
    if p.len() > 0 {
        assert forall|i: int| 0 <= i < p.drop_first().len() implies (
        #[trigger] p.drop_first()[i]).0 == q.drop_first()[i].0 by {
            assert(p.drop_first()[i] == p[i + 1]);
            assert(q.drop_first()[i] == q[i + 1]);
        }
        assert forall|i: int| 0 <= i < p.drop_first().len() && (
        #[trigger] p.drop_first()[i]).0 == key implies p.drop_first()[i].1 == q.drop_first()[i].1 by {
            assert(p.drop_first()[i] == p[i + 1]);
            assert(q.drop_first()[i] == q[i + 1]);
        }
        lemma_first_binding_agree(p.drop_first(), q.drop_first(), key);
    }
}

/// Appending a binding of `key` leaves every other name as it was.
pub proof fn lemma_first_binding_push<V>(p: Seq<(Seq<char>, V)>, x: (Seq<char>, V), key: Seq<char>)
    ensures
        x.0 != key ==> first_binding(p.push(x), key) == first_binding(p, key),
        first_binding(p, key) is None && x.0 == key ==> first_binding(p.push(x), key) == Some(x.1),
    decreases p.len(),
{
    if p.len() > 0 {
        assert(p.push(x)[0] == p[0]);
        assert(p.push(x).drop_first() == p.drop_first().push(x));
        lemma_first_binding_push(p.drop_first(), x, key);
    } else {
        let e = Seq::<(Seq<char>, V)>::empty();
        assert(p.push(x).drop_first() == e);
        assert(first_binding(e, key) is None);
        assert(p.push(x)[0] == x);
    }
}

/// Appending never changes a name that is bound already.
pub proof fn lemma_first_binding_keeps<V>(p: Seq<(Seq<char>, V)>, x: (Seq<char>, V), key: Seq<char>)
    requires
        first_binding(p, key) is Some,
    ensures
        first_binding(p.push(x), key) == first_binding(p, key),
    decreases p.len(),
{
    assert(p.push(x)[0] == p[0]);
    if p[0].0 != key {
        assert(p.push(x).drop_first() == p.drop_first().push(x));
        lemma_first_binding_keeps(p.drop_first(), x, key);
    }
}

impl Element {
    /// The attributes as pairs of character sequences.
    pub open spec fn attrs(&self) -> Seq<(Seq<char>, Seq<char>)> {
        self.attributes@.map_values(|p: (String, String)| (p.0@, p.1@))
    }

    /// An element with the given tag name and nothing else.
    pub fn new(name: &str) -> (r: Element)
        ensures
            r.name@ == name@,
            r.namespace is None,
            r.attributes@.len() == 0,
            r.children@.len() == 0,
    {
        Element {
            name: String::from_str(name),
            namespace: None,
            attributes: Vec::new(),
            children: Vec::new(),
        }
    }

    /// A text node holding `text`.
    pub fn text(text: &str) -> (r: Element)
        ensures
            r.name@.len() == 0,
            r.attrs() == seq![("_text"@, text@)],
            r.children@.len() == 0,
            r.namespace is None,
    {
        let mut r = Element {
            name: String::new(),
            namespace: None,
            attributes: Vec::new(),
            children: Vec::new(),
        };
        r.attributes.push((String::from_str("_text"), String::from_str(text)));
        proof {
            assert(r.attrs() =~= seq![("_text"@, text@)]);
        }
        r
    }

    /// This element with the attribute `key` set to `value`: an earlier
    /// value of `key` is replaced, a new key goes last.
    pub fn with_attribute(self, key: &str, value: &str) -> (r: Element)
        ensures
            r.name == self.name,
            r.namespace == self.namespace,
            r.children == self.children,
            first_binding(r.attrs(), key@) == Some(value@),
            forall|k: Seq<char>|
                k != key@ ==> first_binding(r.attrs(), k) == #[trigger] first_binding(
                    self.attrs(),
                    k,
                ),
    {
        let mut r = self;
        let n = r.attributes.len();
        let mut i: usize = 0;
        while i < n
            invariant
                r == self,
                n == self.attributes@.len(),
                i <= n,
                forall|j: int| 0 <= j < i ==> (#[trigger] self.attrs()[j]).0 != key@,
            decreases n - i,
        {
            if same_text(r.attributes[i].0.as_str(), key) {
                let k = r.attributes[i].0.clone();
                r.attributes.set(i, (k, String::from_str(value)));
                proof {
                    let before = self.attrs();
                    let after = r.attrs();
                    assert(after.len() == before.len());
                    assert forall|j: int| 0 <= j < after.len() implies (#[trigger] after[j]).0
                        == before[j].0 by {}
                    assert forall|kk: Seq<char>| kk != key@ implies first_binding(after, kk)
                        == #[trigger] first_binding(before, kk) by {
                        assert forall|j: int| 0 <= j < after.len() && (#[trigger] after[j]).0
                            == kk implies after[j].1 == before[j].1 by {}
                        lemma_first_binding_agree(after, before, kk);
                    }
                    lemma_first_binding_prefix(after, key@, i as int);
                }
                return r;
            }
            i = i + 1;
        }
        proof {
            lemma_first_binding_absent(self.attrs(), key@);
        }
        r.attributes.push((String::from_str(key), String::from_str(value)));
        proof {
            assert(r.attrs() =~= self.attrs().push((key@, value@)));
            assert forall|kk: Seq<char>| kk != key@ implies first_binding(r.attrs(), kk)
                == #[trigger] first_binding(self.attrs(), kk) by {
                lemma_first_binding_push(self.attrs(), (key@, value@), kk);
            }
            lemma_first_binding_push(self.attrs(), (key@, value@), key@);
        }
        r
    }

    /// This element with one more child.
    pub fn with_child(self, child: Element) -> (r: Element)
        ensures
            r.name == self.name,
            r.attributes == self.attributes,
            r.children@ == self.children@.push(child),
    {
        let mut r = self;
        r.children.push(child);
        r
    }

    /// The value of the first attribute named `key`.
    pub fn attribute(&self, key: &str) -> (r: Option<&String>)
        ensures
            match first_binding(self.attrs(), key@) {
                Some(v) => r is Some && r->0@ == v,
                None => r is None,
            },
    {
        let n = self.attributes.len();
        let mut i: usize = 0;
        while i < n
            invariant
                n == self.attributes@.len(),
                i <= n,
                forall|k: int| 0 <= k < i ==> (#[trigger] self.attrs()[k]).0 != key@,
            decreases n - i,
        {
            if same_text(self.attributes[i].0.as_str(), key) {
                proof {
                    lemma_first_binding_prefix(self.attrs(), key@, i as int);
                }
                return Some(&self.attributes[i].1);
            }
            i = i + 1;
        }
        proof {
            lemma_first_binding_absent(self.attrs(), key@);
        }
        None
    }
}

} // verus!
