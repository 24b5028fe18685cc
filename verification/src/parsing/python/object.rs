use crate::indexing::content::{ContentNode, ContentNodeView};
use crate::parsing::python::class::{
    ClassDocumentation, ClassDocumentationView, ValidatedClassDocumentation,
    ValidatedClassDocumentationView,
};
use crate::parsing::python::function::{
    copy_docstring, docstring_view, FunctionDocumentation, FunctionDocumentationView,
    ValidatedFunctionDocumentation, ValidatedFunctionDocumentationView,
};
use crate::parsing::python::module::{
    ModuleDocumentation, ModuleDocumentationView, ValidatedModuleDocumentation,
    ValidatedModuleDocumentationView,
};
use vstd::prelude::*;

verus! {

/// The documentation of an indexed object.
#[derive(Debug)]
pub enum ObjectDocumentation {
    Module(ModuleDocumentation),
    Class(ClassDocumentation),
    Function(FunctionDocumentation),
}

/// The documentation of an indexed object after its references were looked up.
#[derive(Debug)]
pub enum ValidatedObjectDocumentation {
    Module(ValidatedModuleDocumentation),
    Class(ValidatedClassDocumentation),
    Function(ValidatedFunctionDocumentation),
}

/// The mathematical value of a [`ValidatedObjectDocumentation`].
pub enum ValidatedObjectDocumentationView {
    Module(ValidatedModuleDocumentationView),
    Class(ValidatedClassDocumentationView),
    Function(ValidatedFunctionDocumentationView),
}

impl View for ValidatedObjectDocumentation {
    type V = ValidatedObjectDocumentationView;

    open spec fn view(&self) -> ValidatedObjectDocumentationView {
        match self {
            ValidatedObjectDocumentation::Module(m) => ValidatedObjectDocumentationView::Module(m@),
            ValidatedObjectDocumentation::Class(c) => ValidatedObjectDocumentationView::Class(c@),
            ValidatedObjectDocumentation::Function(f) => ValidatedObjectDocumentationView::Function(
                f@,
            ),
        }
    }
}

/// The mathematical value of an [`ObjectDocumentation`].
pub enum ObjectDocumentationView {
    Module(ModuleDocumentationView),
    Class(ClassDocumentationView),
    Function(FunctionDocumentationView),
}

impl View for ObjectDocumentation {
    type V = ObjectDocumentationView;

    open spec fn view(&self) -> ObjectDocumentationView {
        match self {
            ObjectDocumentation::Module(m) => ObjectDocumentationView::Module(m@),
            ObjectDocumentation::Class(c) => ObjectDocumentationView::Class(c@),
            ObjectDocumentation::Function(f) => ObjectDocumentationView::Function(f@),
        }
    }
}

/// The docstring of an object, whatever its kind.
pub open spec fn docstring_of(o: ObjectDocumentationView) -> Option<Seq<ContentNodeView>> {
    match o {
        ObjectDocumentationView::Module(m) => m.docstring,
        ObjectDocumentationView::Class(c) => c.docstring,
        ObjectDocumentationView::Function(f) => f.docstring,
    }
}

/// The docstring field of an object, whatever its kind.
pub open spec fn docstring_field(o: ObjectDocumentation) -> Option<Vec<ContentNode>> {
    match o {
        ObjectDocumentation::Module(m) => m.docstring,
        ObjectDocumentation::Class(c) => c.docstring,
        ObjectDocumentation::Function(f) => f.docstring,
    }
}

/// The object with its docstring replaced by `d`.
pub open spec fn with_docstring(o: ObjectDocumentation, d: Vec<ContentNode>) -> ObjectDocumentation {
    match o {
        ObjectDocumentation::Module(m) => ObjectDocumentation::Module(
            ModuleDocumentation { docstring: Some(d), ..m },
        ),
        ObjectDocumentation::Class(c) => ObjectDocumentation::Class(
            ClassDocumentation { docstring: Some(d), ..c },
        ),
        ObjectDocumentation::Function(f) => ObjectDocumentation::Function(
            FunctionDocumentation { docstring: Some(d), ..f },
        ),
    }
}

impl Clone for ObjectDocumentation {
    fn clone(&self) -> (r: Self)
        ensures
            r@ == self@,
    {
        match self {
            ObjectDocumentation::Module(m) => ObjectDocumentation::Module(m.clone()),
            ObjectDocumentation::Class(c) => ObjectDocumentation::Class(c.clone()),
            ObjectDocumentation::Function(f) => ObjectDocumentation::Function(f.clone()),
        }
    }
}

impl ObjectDocumentation {
    /// A mutable borrow of the docstring, if the object has one.
    pub fn docstring_mut(&mut self) -> (r: Option<&mut Vec<ContentNode>>)
        ensures
            match docstring_field(*old(self)) {
                Some(d) => r matches Some(b) && *b == d && *final(self) == with_docstring(
                    *old(self),
                    *final(b),
                ),
                None => r is None && *final(self) == *old(self),
            },
    {
        match self {
            ObjectDocumentation::Module(module_documentation) => module_documentation.docstring.as_mut(),
            ObjectDocumentation::Class(class_documentation) => class_documentation.docstring.as_mut(),
            ObjectDocumentation::Function(function_documentation) => function_documentation.docstring.as_mut(),
        }
    }

    /// A copy of the docstring, if the object has one.
    pub fn docstring(&self) -> (r: Option<Vec<ContentNode>>)
        ensures
            docstring_view(r) == docstring_of(self@),
    {
        match self {
            ObjectDocumentation::Module(module_documentation) => copy_docstring(
                &module_documentation.docstring,
            ),
            ObjectDocumentation::Class(class_documentation) => copy_docstring(
                &class_documentation.docstring,
            ),
            ObjectDocumentation::Function(function_documentation) => copy_docstring(
                &function_documentation.docstring,
            ),
        }
    }
}

} // verus!
