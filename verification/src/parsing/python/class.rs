use crate::indexing::content::{parse_content, ContentNode, ContentNodeView};
use crate::indexing::validated::{ValidatedContentNode, ValidatedContentNodeView};
use crate::parsing::python::docstring::{body_docstring_nodes, dedent, extract_docstring_from_body};
use crate::parsing::python::function::{
    copy_docstring, validated_docstring_view, docstring_view, is_private_name,
    starts_with_underscore, statement_function, FunctionDocumentation, FunctionDocumentationView,
};
use crate::parsing::python::syntax::{
    async_function_def_fields, body_docstring, class_def_fields, class_def_parts,
    function_def_fields, row_of_offset, source_row, statement_def, ClassFields, FunctionFields,
    StatementDef,
};
use rustpython_parser::ast::{Stmt, StmtClassDef};
use vstd::prelude::*;
use vstd::string::StringSliceAdditionalSpecFns;

verus! {

/// The documentation of a class and of its methods.
#[derive(Debug, PartialEq)]
pub struct ClassDocumentation {
    pub name: String,
    pub docstring: Option<Vec<ContentNode>>,
    pub methods: Vec<FunctionDocumentation>,
    pub first_line: usize,
    pub last_line: usize,
    pub source_file: String,
}

/// The documentation of a class after the references in its docstring were looked up.
#[derive(Debug)]
pub struct ValidatedClassDocumentation {
    pub name: String,
    pub docstring: Option<Vec<ValidatedContentNode>>,
    pub method_names: Vec<String>,
    pub first_line: usize,
    pub last_line: usize,
    pub source_file: String,
}

/// The mathematical value of a [`ValidatedClassDocumentation`].
pub struct ValidatedClassDocumentationView {
    pub name: Seq<char>,
    pub docstring: Option<Seq<ValidatedContentNodeView>>,
    pub method_names: Seq<Seq<char>>,
    pub first_line: usize,
    pub last_line: usize,
    pub source_file: Seq<char>,
}

impl View for ValidatedClassDocumentation {
    type V = ValidatedClassDocumentationView;

    open spec fn view(&self) -> ValidatedClassDocumentationView {
        ValidatedClassDocumentationView {
            name: self.name@,
            docstring: validated_docstring_view(self.docstring),
            method_names: self.method_names@.map_values(|s: String| s@),
            first_line: self.first_line,
            last_line: self.last_line,
            source_file: self.source_file@,
        }
    }
}

pub open spec fn function_views(fs: Seq<FunctionDocumentation>) -> Seq<FunctionDocumentationView> {
    fs.map_values(|f: FunctionDocumentation| f@)
}

/// The mathematical value of a [`ClassDocumentation`].
pub struct ClassDocumentationView {
    pub name: Seq<char>,
    pub docstring: Option<Seq<ContentNodeView>>,
    pub methods: Seq<FunctionDocumentationView>,
    pub first_line: usize,
    pub last_line: usize,
    pub source_file: Seq<char>,
}

impl View for ClassDocumentation {
    type V = ClassDocumentationView;

    open spec fn view(&self) -> ClassDocumentationView {
        ClassDocumentationView {
            name: self.name@,
            docstring: docstring_view(self.docstring),
            methods: function_views(self.methods@),
            first_line: self.first_line,
            last_line: self.last_line,
            source_file: self.source_file@,
        }
    }
}

/// A copy of a list of function documentations.
pub fn copy_functions(v: &Vec<FunctionDocumentation>) -> (r: Vec<FunctionDocumentation>)
    ensures
        function_views(r@) == function_views(v@),
{
    let mut r: Vec<FunctionDocumentation> = Vec::new();
    let mut i: usize = 0;
    while i < v.len()
        invariant
            i <= v.len(),
            r@.len() == i,
            forall|j: int| 0 <= j < i ==> #[trigger] r@[j]@ == v@[j]@,
        decreases v.len() - i,
    {
        let c = v[i].clone();
        assert(c@ == v@[i as int]@);
        let ghost prev = r@;
        r.push(c);
        i += 1;
    }
    assert(function_views(r@) =~= function_views(v@));
    r
}

impl Clone for ClassDocumentation {
    fn clone(&self) -> (r: Self)
        ensures
            r@ == self@,
    {
        ClassDocumentation {
            name: self.name.clone(),
            docstring: copy_docstring(&self.docstring),
            methods: copy_functions(&self.methods),
            first_line: self.first_line,
            last_line: self.last_line,
            source_file: self.source_file.clone(),
        }
    }
}

/// The documentation of the methods among the statements of a class body indented `level`
/// levels: one for each (possibly async) function definition, in order.
pub open spec fn methods_of(
    body: Seq<Stmt>,
    level: int,
    source: Seq<char>,
    source_file: Seq<char>,
) -> Seq<FunctionDocumentationView>
    decreases body.len(),
{
    if body.len() == 0 {
        Seq::empty()
    } else {
        methods_of(body.drop_last(), level, source, source_file) + match statement_function(
            body.last(),
            level + 1,
            source,
            source_file,
        ) {
            Some(f) => seq![f],
            None => Seq::empty(),
        }
    }
}

/// The documentation of a class definition whose body is indented `level` levels: its
/// name, its body's docstring, its methods, and the lines of `source` where it starts and
/// ends.
pub open spec fn class_documentation(
    c: ClassFields,
    level: int,
    source: Seq<char>,
    source_file: Seq<char>,
) -> ClassDocumentationView {
    ClassDocumentationView {
        name: c.name,
        docstring: body_docstring_nodes(c.body, level),
        methods: methods_of(c.body, level, source, source_file),
        first_line: source_row(source, c.start),
        last_line: source_row(source, c.end),
        source_file,
    }
}

/// The function definitions, async or not, among the statements of a body, in order.
pub open spec fn function_defs(body: Seq<Stmt>) -> Seq<FunctionFields>
    decreases body.len(),
{
    if body.len() == 0 {
        Seq::empty()
    } else {
        function_defs(body.drop_last()) + match statement_def(body.last()) {
            StatementDef::FunctionDef(d) => seq![function_def_fields(d)],
            StatementDef::AsyncFunctionDef(d) => seq![async_function_def_fields(d)],
            _ => Seq::empty(),
        }
    }
}

/// The docstring of a body, parsed after `n` leading spaces were taken from each of its
/// lines that has them.
pub open spec fn dedented_docstring(body: Seq<Stmt>, n: int) -> Option<Seq<ContentNodeView>> {
    match body_docstring(body) {
        Some(raw) => Some(parse_content(dedent(raw, n))),
        None => None,
    }
}

/// Every function definition directly in a class body, async or not, gives exactly one
/// method, in body order, with that definition's name; and a method's docstring loses the
/// indent of the method's own body, four spaces deeper than the class body's.
pub proof fn law_methods_are_the_function_definitions(
    body: Seq<Stmt>,
    level: int,
    source: Seq<char>,
    source_file: Seq<char>,
)
    ensures
        methods_of(body, level, source, source_file).len() == function_defs(body).len(),
        forall|j: int|
            0 <= j < function_defs(body).len() ==> {
                &&& (#[trigger] methods_of(body, level, source, source_file)[j]).name
                    == function_defs(body)[j].name
                &&& methods_of(body, level, source, source_file)[j].docstring
                    == dedented_docstring(function_defs(body)[j].body, 4 * level + 4)
            },
    decreases body.len(),
{
    if body.len() > 0 {
        law_methods_are_the_function_definitions(body.drop_last(), level, source, source_file);
        assert(4 * (level + 1) == 4 * level + 4);
    }
}

impl ClassDocumentation {
    /// The documentation of a class definition; its methods are the function definitions
    /// directly in its body, indented one level deeper.
    pub fn from_class_statements(
        value: &StmtClassDef,
        body_indent_level: usize,
        source: &str,
        source_file: String,
    ) -> (r: Self)
        requires
            body_indent_level < usize::MAX / 4,
            source.spec_bytes().len() <= u32::MAX,
        ensures
            r@ == class_documentation(
                class_def_fields(*value),
                body_indent_level as int,
                source@,
                source_file@,
            ),
    {
        let parts = class_def_parts(value);
        let ghost fields = parts@;
        let first_line = row_of_offset(source, parts.start);
        let last_line = row_of_offset(source, parts.end);
        let body = parts.body;
        let mut methods: Vec<FunctionDocumentation> = Vec::new();
        let mut i: usize = 0;
        while i < body.len()
            invariant
                i <= body.len(),
                body_indent_level < usize::MAX / 4,
                source.spec_bytes().len() <= u32::MAX,
                function_views(methods@) == methods_of(
                    body@.take(i as int),
                    body_indent_level as int,
                    source@,
                    source_file@,
                ),
            decreases body.len() - i,
        {
            assert(body@.take(i + 1).drop_last() == body@.take(i as int));
            assert(body@.take(i + 1).last() == body@[i as int]);
            match FunctionDocumentation::from_statements(
                &body[i],
                body_indent_level,
                source,
                source_file.clone(),
            ) {
                Some(f) => {
                    let ghost prev = methods@;
                    methods.push(f);
                    assert(function_views(methods@) =~= function_views(prev).push(f@));
                },
                None => {},
            }
            i += 1;
        }
        assert(body@.take(body@.len() as int) == body@);
        ClassDocumentation {
            name: parts.name,
            docstring: extract_docstring_from_body(body, body_indent_level),
            methods,
            first_line,
            last_line,
            source_file,
        }
    }
}

pub fn is_private_class(class_doc: &ClassDocumentation) -> (b: bool)
    ensures
        b == is_private_name(class_doc.name@),
{
    starts_with_underscore(&class_doc.name)
}

} // verus!
