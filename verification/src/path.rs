//! Paths from the root of a document to a node.
use vstd::prelude::*;

verus! {

/// One step of a path: into a keyed node by key, or into a list or text by
/// index.
#[derive(Debug, PartialEq)]
pub enum PathElement {
    Key(String),
    Index(usize),
}

/// What a [`PathElement`] stands for.
pub ghost enum Step {
    Key(Seq<char>),
    Index(int),
}

impl View for PathElement {
    type V = Step;

    open spec fn view(&self) -> Step {
        match *self {
            PathElement::Key(key) => Step::Key(key@),
            PathElement::Index(index) => Step::Index(index as int),
        }
    }
}

impl Clone for PathElement {
    fn clone(&self) -> (copy: Self)
        ensures
            copy@ == self@,
    {
        match self {
            PathElement::Key(key) => PathElement::Key(key.clone()),
            PathElement::Index(index) => PathElement::Index(*index),
        }
    }
}

/// The steps that a list of path elements stands for.
pub open spec fn steps_of(elements: Seq<PathElement>) -> Seq<Step> {
    Seq::new(elements.len(), |i: int| elements[i]@)
}

/// The steps from the root of a document to one of its nodes.
#[derive(Debug, PartialEq)]
pub struct Path {
    elements: Vec<PathElement>,
}

impl View for Path {
    type V = Seq<Step>;

    closed spec fn view(&self) -> Seq<Step> {
        steps_of(self.elements@)
    }
}

impl Path {
    /// The path of the root: no step.
    pub fn root() -> (path: Path)
        ensures
            path@ == Seq::<Step>::empty(),
    {
        let path = Path { elements: Vec::new() };
        assert(path@ =~= Seq::<Step>::empty());
        path
    }

    /// This path, followed by a step into a keyed node.
    pub fn key(self, key: &str) -> (path: Path)
        ensures
            path@ == self@.push(Step::Key(key@)),
    {
        let ghost before = self@;
        let mut elements = self.elements;
        elements.push(PathElement::Key(key.to_owned()));
        let path = Path { elements };
        assert(path@ =~= before.push(Step::Key(key@)));
        path
    }

    /// This path, followed by a step into a list or text.
    pub fn index(self, index: usize) -> (path: Path)
        ensures
            path@ == self@.push(Step::Index(index as int)),
    {
        let ghost before = self@;
        let mut elements = self.elements;
        elements.push(PathElement::Index(index));
        let path = Path { elements };
        assert(path@ =~= before.push(Step::Index(index as int)));
        path
    }

    /// Whether this is the path of the root.
    pub fn is_root(&self) -> (root: bool)
        ensures
            root == (self@.len() == 0),
    {
        self.elements.len() == 0
    }

    /// The number of steps.
    pub fn len(&self) -> (n: usize)
        ensures
            n == self@.len(),
    {
        self.elements.len()
    }

    /// The step at position `i`.
    pub fn element(&self, i: usize) -> (element: &PathElement)
        requires
            i < self@.len(),
        ensures
            element@ == self@[i as int],
    {
        &self.elements[i]
    }

    /// The path without its last step; the root's parent is the root.
    pub fn parent(&self) -> (path: Path)
        ensures
            path@ == if self@.len() == 0 {
                self@
            } else {
                self@.drop_last()
            },
    {
        let kept: usize = if self.elements.len() == 0 {
            0
        } else {
            self.elements.len() - 1
        };
        let mut elements: Vec<PathElement> = Vec::new();
        let mut i: usize = 0;
        while i < kept
            invariant
                i <= kept <= self.elements.len(),
                elements.len() == i,
                forall|j: int| 0 <= j < i ==> (#[trigger] elements@[j])@ == self.elements@[j]@,
            decreases kept - i,
        {
            elements.push(self.elements[i].clone());
            i += 1;
        }
        let path = Path { elements };
        assert(path@ =~= if self@.len() == 0 {
            self@
        } else {
            self@.drop_last()
        });
        path
    }
}

impl Clone for Path {
    fn clone(&self) -> (copy: Self)
        ensures
            copy@ == self@,
    {
        let mut elements: Vec<PathElement> = Vec::new();
        let mut i: usize = 0;
        while i < self.elements.len()
            invariant
                i <= self.elements.len(),
                elements.len() == i,
                forall|j: int| 0 <= j < i ==> (#[trigger] elements@[j])@ == self.elements@[j]@,
            decreases self.elements.len() - i,
        {
            elements.push(self.elements[i].clone());
            i += 1;
        }
        let copy = Path { elements };
        assert(copy@ =~= self@);
        copy
    }
}

} // verus!
