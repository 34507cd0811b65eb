//! A minimal document model: a document owns a root, whose children are
//! elements carrying a name and attributes.

use vstd::prelude::*;

verus! {

/// One attribute of an element.
#[derive(Debug, Clone)]
pub struct Attribute {
    pub name: String,
    pub value: String,
}

/// The value of the first attribute with the given name.
pub open spec fn attr_lookup(attrs: Seq<Attribute>, name: Seq<char>) -> Option<Seq<char>>
    decreases attrs.len(),
{
    if attrs.len() == 0 {
        None
    } else if attrs[0].name@ == name {
        Some(attrs[0].value@)
    } else {
        attr_lookup(attrs.drop_first(), name)
    }
}

/// An element: a name and its attributes, in the order they were set.
#[derive(Debug, Clone)]
pub struct Element {
    pub name: String,
    pub attributes: Vec<Attribute>,
}

impl Element {
    pub fn new(name: String) -> (r: Element)
        ensures
            r.name == name,
            r.attributes@ == Seq::<Attribute>::empty(),
    {
        Element { name, attributes: Vec::new() }
    }

    pub fn set_attribute(&mut self, name: String, value: String)
        ensures
            final(self).name == old(self).name,
            final(self).attributes@ == old(self).attributes@.push((Attribute { name, value })),
    {
        self.attributes.push(Attribute { name, value });
    }

    pub fn name(&self) -> (r: &str)
        ensures
            r@ == self.name@,
    {
        self.name.as_str()
    }

    /// The value of the first attribute with the given name, if any.
    pub fn get_attribute<'a>(&'a self, name: &str) -> (r: Option<&'a String>)
        ensures
            match r {
                Some(v) => attr_lookup(self.attributes@, name@) == Some(v@),
                None => attr_lookup(self.attributes@, name@) is None,
            },
    {
        proof {
            assert(self.attributes@.skip(0) =~= self.attributes@);
        }
        let mut i: usize = 0;
        while i < self.attributes.len()
            invariant
                i <= self.attributes@.len(),
                attr_lookup(self.attributes@.skip(i as int), name@) == attr_lookup(
                    self.attributes@,
                    name@,
                ),
            decreases self.attributes@.len() - i,
        {
            proof {
                assert(self.attributes@.skip(i as int)[0] == self.attributes@[i as int]);
                assert(self.attributes@.skip(i as int).drop_first() =~= self.attributes@.skip(
                    i as int + 1,
                ));
            }
            if crate::token::str_eq(self.attributes[i].name.as_str(), name) {
                return Some(&self.attributes[i].value);
            }
            i = i + 1;
        }
        proof {
            assert(self.attributes@.skip(i as int) =~= Seq::<Attribute>::empty());
        }
        None
    }
}

/// What can stand directly under a root.
#[derive(Debug, Clone)]
pub enum RootChild {
    Element(Element),
}

impl RootChild {
    /// The element this child is, if it is one.
    pub fn element(&self) -> (r: Option<&Element>)
        ensures
            match r {
                Some(e) => *self == (RootChild::Element(*e)),
                None => !(*self matches RootChild::Element(_)),
            },
    {
        match self {
            RootChild::Element(e) => Some(e),
        }
    }
}

/// The root of a document.
#[derive(Debug, Clone)]
pub struct Root {
    pub children: Vec<RootChild>,
}

impl Root {
    pub fn new() -> (r: Root)
        ensures
            r.children@ == Seq::<RootChild>::empty(),
    {
        Root { children: Vec::new() }
    }

    pub fn append_child(&mut self, child: Element)
        ensures
            final(self).children@ == old(self).children@.push((RootChild::Element(child))),
    {
        self.children.push(RootChild::Element(child));
    }

    pub fn children(&self) -> (r: &Vec<RootChild>)
        ensures
            r == &self.children,
    {
        &self.children
    }

    pub fn first_child(&self) -> (r: Option<&RootChild>)
        ensures
            match r {
                Some(c) => self.children@.len() > 0 && *c == self.children@[0],
                None => self.children@.len() == 0,
            },
    {
        if self.children.len() > 0 {
            Some(&self.children[0])
        } else {
            None
        }
    }
}

/// A document: its root and nothing else.
#[derive(Debug, Clone)]
pub struct Document {
    pub root: Root,
}

impl Document {
    pub fn new() -> (r: Document)
        ensures
            r.root.children@ == Seq::<RootChild>::empty(),
    {
        Document { root: Root::new() }
    }

    pub fn root(&self) -> (r: &Root)
        ensures
            r == &self.root,
    {
        &self.root
    }

    /// A fresh element for this document.
    pub fn new_element(&self, name: String) -> (r: Element)
        ensures
            r.name == name,
            r.attributes@ == Seq::<Attribute>::empty(),
    {
        Element::new(name)
    }
}

} // verus!
