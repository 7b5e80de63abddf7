//! Building the element tree from a stream of markup events.
use vstd::prelude::*;
use vstd::string::*;
use crate::element::Element;

verus! {

/// One event of a markup reader.
#[derive(Debug)]
pub enum Event {
    /// An opening tag: the element, without children yet.
    Start(Element),
    /// A self-closing tag.
    Empty(Element),
    /// Text between tags.
    Text(String),
    /// A closing tag.
    End,
}

/// The elements opened and not yet closed, outermost first.
pub struct TreeBuilder {
    pub stack: Vec<Element>,
}

/// `after` is `before` with `child` appended to the children of its last element.
pub open spec fn adopted(before: Seq<Element>, after: Seq<Element>, child: Element) -> bool {
    &&& before.len() > 0
    &&& after.len() == before.len()
    &&& forall|i: int| 0 <= i < before.len() - 1 ==> after[i] == #[trigger] before[i]
    &&& after.last().name == before.last().name
    &&& after.last().namespace == before.last().namespace
    &&& after.last().attributes == before.last().attributes
    &&& after.last().children@ == before.last().children@.push(child)
}

impl TreeBuilder {
    pub fn new() -> (r: TreeBuilder)
        ensures
            r.stack@.len() == 0,
    {
        TreeBuilder { stack: Vec::new() }
    }

    fn adopt(&mut self, child: Element)
        requires
            old(self).stack@.len() > 0,
        ensures
            adopted(old(self).stack@, final(self).stack@, child),
    {
        match self.stack.pop() {
            Some(parent) => {
                let mut parent = parent;
                parent.children.push(child);
                self.stack.push(parent);
            },
            None => {},
        }
    }

    /// Takes one event. A complete element with no open parent is the root
    /// of the document and comes back as `Some`; a closing tag with nothing
    /// open is an error.
    pub fn feed(&mut self, event: Event) -> (r: Result<Option<Element>, String>)
        ensures
            event is Start ==> r == Ok::<Option<Element>, String>(None) && final(self).stack@
                == old(self).stack@.push(event->Start_0),
            event is Empty && old(self).stack@.len() == 0 ==> r == Ok::<Option<Element>, String>(
                Some(event->Empty_0),
            ) && final(self).stack@.len() == 0,
            event is Empty && old(self).stack@.len() > 0 ==> r == Ok::<Option<Element>, String>(None)
                && adopted(old(self).stack@, final(self).stack@, event->Empty_0),
            event is Text && old(self).stack@.len() == 0 ==> (r matches Ok(Some(e))
                && e.name@.len() == 0 && e.attrs() == seq![("_text"@, (event->Text_0)@)]
                && e.children@.len() == 0 && e.namespace is None),
            event is Text && old(self).stack@.len() > 0 ==> r == Ok::<Option<Element>, String>(None)
                && exists|e: Element|
                #![trigger adopted(old(self).stack@, final(self).stack@, e)]
                adopted(old(self).stack@, final(self).stack@, e) && e.name@.len() == 0
                    && e.attrs() == seq![("_text"@, (event->Text_0)@)] && e.children@.len() == 0
                    && e.namespace is None,
            event is End && old(self).stack@.len() == 0 ==> r is Err,
            event is End && old(self).stack@.len() == 1 ==> r == Ok::<Option<Element>, String>(
                Some(old(self).stack@[0]),
            ) && final(self).stack@.len() == 0,
            event is End && old(self).stack@.len() > 1 ==> r == Ok::<Option<Element>, String>(None)
                && adopted(old(self).stack@.drop_last(), final(self).stack@, old(self).stack@.last()),
    {
        match event {
            Event::Start(e) => {
                self.stack.push(e);
                Ok(None)
            },
            Event::Empty(e) => {
                if self.stack.len() == 0 {
                    Ok(Some(e))
                } else {
                    self.adopt(e);
                    Ok(None)
                }
            },
            Event::Text(t) => {
                let e = Element::text(t.as_str());
                if self.stack.len() == 0 {
                    Ok(Some(e))
                } else {
                    let ghost child = e;
                    self.adopt(e);
                    assert(adopted(old(self).stack@, self.stack@, child));
                    Ok(None)
                }
            },
            Event::End => match self.stack.pop() {
                Some(done) => {
                    if self.stack.len() == 0 {
                        Ok(Some(done))
                    } else {
                        self.adopt(done);
                        Ok(None)
                    }
                },
                None => Err(String::from_str("Closing tag without an opening tag")),
            },
        }
    }

    /// Ends the document: elements left open are closed innermost first.
    /// Fails when nothing was opened.
    pub fn finish(self) -> (r: Result<Element, String>)
        ensures
            r is Ok <==> self.stack@.len() > 0,
            self.stack@.len() == 1 ==> r == Ok::<Element, String>(self.stack@[0]),
            r matches Ok(root) ==> root.name == self.stack@[0].name && root.namespace
                == self.stack@[0].namespace && root.attributes == self.stack@[0].attributes,
    {
        let mut stack = self.stack;
        while stack.len() > 1
            invariant
                stack@.len() >= 1 <==> self.stack@.len() >= 1,
                self.stack@.len() == 1 ==> stack@ == self.stack@,
                stack@.len() >= 1 ==> stack@[0].name == self.stack@[0].name && stack@[0].namespace
                    == self.stack@[0].namespace && stack@[0].attributes == self.stack@[0].attributes,
            decreases stack@.len(),
        {
            let ghost full = stack@;
            match stack.pop() {
                Some(done) => {
                    let ghost popped = stack@;
                    assert(popped[0] == full[0]);
                    let mut b = TreeBuilder { stack };
                    b.adopt(done);
                    stack = b.stack;
                    proof {
                        if popped.len() > 1 {
                            assert(stack@[0] == popped[0]);
                        }
                    }
                },
                None => {},
            }
        }
        match stack.pop() {
            Some(root) => Ok(root),
            None => Err(String::from_str("No root element found")),
        }
    }
}

} // verus!
