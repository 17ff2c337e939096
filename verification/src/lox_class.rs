//! Classes and method lookup.

use vstd::prelude::*;
use std::rc::Rc;
use crate::callable::{LoxCallable, LoxFunction};
use crate::name_map::NameMap;

verus! {

/// A class: its name, the class it extends and its own methods.
pub struct LoxClass {
    pub name: String,
    pub superclass: Option<Rc<LoxClass>>,
    pub methods: NameMap<LoxFunction>,
}

/// A class as a mathematical value.
pub struct ClassView {
    pub name: Seq<char>,
    pub superclass: Option<Box<ClassView>>,
    pub methods: Map<Seq<char>, LoxFunction>,
}

impl ClassView {
    /// The method that `name` denotes in this class: its own where it has
    /// one, else what the name denotes in the class it extends.
    pub open spec fn find_method(self, name: Seq<char>) -> Option<LoxFunction>
        decreases self,
    {
        if self.methods.contains_key(name) {
            Some(self.methods[name])
        } else {
            match self.superclass {
                Some(parent) => parent.find_method(name),
                None => None,
            }
        }
    }

    /// How many arguments a call of the class must bring: as many as its
    /// initialiser takes, none where it has no initialiser.
    pub open spec fn arity(self) -> nat {
        match self.find_method("init"@) {
            Some(initializer) => initializer.spec_arity(),
            None => 0,
        }
    }
}

impl LoxClass {
    /// The class as a mathematical value.
    pub open spec fn model(&self) -> ClassView
        decreases self,
    {
        ClassView {
            name: self.name@,
            superclass: match self.superclass {
                Some(parent) => Some(Box::new(parent.model())),
                None => None,
            },
            methods: self.methods@,
        }
    }

    /// A class of the given parts.
    pub fn new(name: String, superclass: Option<Rc<LoxClass>>, methods: NameMap<LoxFunction>) -> (class:
        LoxClass)
        ensures
            class == (LoxClass { name, superclass, methods }),
    {
        LoxClass { name, superclass, methods }
    }

    /// Looks `name` up among the methods of the class, then among those of
    /// the classes it extends, nearest first.
    pub fn find_method(&self, name: &String) -> (found: Option<&LoxFunction>)
        ensures
            match found {
                Some(method) => self@.find_method(name@) == Some(*method),
                None => self@.find_method(name@) is None,
            },
        decreases self,
    {
        match self.methods.get(name) {
            Some(method) => Some(method),
            None => match &self.superclass {
                Some(parent) => parent.find_method(name),
                None => None,
            },
        }
    }

    /// How many arguments a call of the class must bring.
    pub fn arity(&self) -> (count: usize)
        ensures
            count == self@.arity(),
    {
        let init = String::from_str("init");
        match self.find_method(&init) {
            Some(initializer) => initializer.arity(),
            None => 0,
        }
    }
}

impl View for LoxClass {
    type V = ClassView;

    open spec fn view(&self) -> ClassView {
        self.model()
    }
}

/// Whether the resolver is inside a class body.
#[derive(Debug, Clone, Copy, PartialEq, Eq, Structural)]
pub enum ClassType {
    Outside,
    Class,
}

} // verus!
