use crate::indexing::content::{content_views, ContentNode, ContentNodeView};
use crate::indexing::validated::{validated_views, ValidatedContentNode, ValidatedContentNodeView};
use crate::parsing::python::docstring::{body_docstring_nodes, extract_docstring_from_body};
use crate::parsing::python::syntax::{
    async_function_def_parts, classify_statement, copy_annotation, copy_arguments,
    async_function_def_fields, copy_type_params, function_def_fields, function_def_parts,
    row_of_offset, source_row, statement_def, FunctionFields, FunctionParts, StatementDef,
    StatementRef,
};
use rustpython_parser::ast::{Arguments, Expr, Stmt, StmtAsyncFunctionDef, StmtFunctionDef, TypeParam};
use vstd::prelude::*;
use vstd::string::StringSliceAdditionalSpecFns;

verus! {

/// The documentation of a function or method.
#[derive(Debug, PartialEq)]
pub struct FunctionDocumentation {
    pub name: String,
    pub docstring: Option<Vec<ContentNode>>,
    pub return_type: Option<Expr>,
    pub args: Arguments,
    pub generics: Vec<TypeParam>,
    pub first_line: usize,
    pub last_line: usize,
    pub source_file: String,
}

/// The documentation of a function after the references in its docstring were looked up.
#[derive(Debug)]
pub struct ValidatedFunctionDocumentation {
    pub name: String,
    pub docstring: Option<Vec<ValidatedContentNode>>,
    pub return_type: Option<Expr>,
    pub args: Arguments,
    pub generics: Vec<TypeParam>,
    pub first_line: usize,
    pub last_line: usize,
    pub source_file: String,
}

/// The mathematical value of a [`ValidatedFunctionDocumentation`].
pub struct ValidatedFunctionDocumentationView {
    pub name: Seq<char>,
    pub docstring: Option<Seq<ValidatedContentNodeView>>,
    pub return_type: Option<Expr>,
    pub args: Arguments,
    pub generics: Seq<TypeParam>,
    pub first_line: usize,
    pub last_line: usize,
    pub source_file: Seq<char>,
}

pub open spec fn validated_docstring_view(d: Option<Vec<ValidatedContentNode>>) -> Option<
    Seq<ValidatedContentNodeView>,
> {
    match d {
        Some(v) => Some(validated_views(v@)),
        None => None,
    }
}

impl View for ValidatedFunctionDocumentation {
    type V = ValidatedFunctionDocumentationView;

    open spec fn view(&self) -> ValidatedFunctionDocumentationView {
        ValidatedFunctionDocumentationView {
            name: self.name@,
            docstring: validated_docstring_view(self.docstring),
            return_type: self.return_type,
            args: self.args,
            generics: self.generics@,
            first_line: self.first_line,
            last_line: self.last_line,
            source_file: self.source_file@,
        }
    }
}

/// A copy of a list of nodes.
pub fn copy_nodes(v: &Vec<ContentNode>) -> (r: Vec<ContentNode>)
    ensures
        r@ == v@,
{
    let mut r: Vec<ContentNode> = Vec::new();
    let mut i: usize = 0;
    while i < v.len()
        invariant
            i <= v.len(),
            r@ == v@.take(i as int),
        decreases v.len() - i,
    {
        r.push(v[i].clone());
        assert(r@ == v@.take(i + 1));
        i += 1;
    }
    assert(r@ == v@);
    r
}

/// A copy of an optional docstring.
pub fn copy_docstring(d: &Option<Vec<ContentNode>>) -> (r: Option<Vec<ContentNode>>)
    ensures
        docstring_view(r) == docstring_view(*d),
{
    match d {
        Some(v) => Some(copy_nodes(v)),
        None => None,
    }
}

/// The mathematical value of an optional docstring.
pub open spec fn docstring_view(d: Option<Vec<ContentNode>>) -> Option<Seq<ContentNodeView>> {
    match d {
        Some(v) => Some(content_views(v@)),
        None => None,
    }
}

/// The mathematical value of a [`FunctionDocumentation`]; the parts of the syntax tree stand
/// as they are.
pub struct FunctionDocumentationView {
    pub name: Seq<char>,
    pub docstring: Option<Seq<ContentNodeView>>,
    pub return_type: Option<Expr>,
    pub args: Arguments,
    pub generics: Seq<TypeParam>,
    pub first_line: usize,
    pub last_line: usize,
    pub source_file: Seq<char>,
}

impl View for FunctionDocumentation {
    type V = FunctionDocumentationView;

    open spec fn view(&self) -> FunctionDocumentationView {
        FunctionDocumentationView {
            name: self.name@,
            docstring: docstring_view(self.docstring),
            return_type: self.return_type,
            args: self.args,
            generics: self.generics@,
            first_line: self.first_line,
            last_line: self.last_line,
            source_file: self.source_file@,
        }
    }
}

impl Clone for FunctionDocumentation {
    fn clone(&self) -> (r: Self)
        ensures
            r@ == self@,
    {
        FunctionDocumentation {
            name: self.name.clone(),
            docstring: copy_docstring(&self.docstring),
            return_type: copy_annotation(&self.return_type),
            args: copy_arguments(&self.args),
            generics: copy_type_params(&self.generics),
            first_line: self.first_line,
            last_line: self.last_line,
            source_file: self.source_file.clone(),
        }
    }
}

/// The documentation of a function definition whose body is indented `level` levels: its
/// name, annotations and parameters as they stand, its body's docstring, and the lines of
/// `source` where it starts and ends.
pub open spec fn function_documentation(
    f: FunctionFields,
    level: int,
    source: Seq<char>,
    source_file: Seq<char>,
) -> FunctionDocumentationView {
    FunctionDocumentationView {
        name: f.name,
        docstring: body_docstring_nodes(f.body, level),
        return_type: f.returns,
        args: f.args,
        generics: f.type_params,
        first_line: source_row(source, f.start),
        last_line: source_row(source, f.end),
        source_file,
    }
}

/// The documentation of a statement that is a (possibly async) function definition whose
/// body is indented `level` levels; `None` for other statements.
pub open spec fn statement_function(
    s: Stmt,
    level: int,
    source: Seq<char>,
    source_file: Seq<char>,
) -> Option<FunctionDocumentationView> {
    match statement_def(s) {
        StatementDef::FunctionDef(d) => Some(
            function_documentation(function_def_fields(d), level, source, source_file),
        ),
        StatementDef::AsyncFunctionDef(d) => Some(
            function_documentation(async_function_def_fields(d), level, source, source_file),
        ),
        _ => None,
    }
}

pub open spec fn opt_function_view(f: Option<FunctionDocumentation>) -> Option<
    FunctionDocumentationView,
> {
    match f {
        Some(g) => Some(g@),
        None => None,
    }
}

/// The name starts with an underscore, which marks it private.
pub open spec fn is_private_name(name: Seq<char>) -> bool {
    name.len() > 0 && name[0] == '_'
}

pub fn starts_with_underscore(name: &String) -> (b: bool)
    ensures
        b == is_private_name(name@),
{
    let s = name.as_str();
    !s.is_empty() && s.get_char(0) == '_'
}

impl FunctionDocumentation {
    /// The documentation built from the fields of a function definition.
    pub fn from_parts(
        parts: FunctionParts,
        body_indent_level: usize,
        source: &str,
        source_file: String,
    ) -> (r: Self)
        requires
            body_indent_level <= usize::MAX / 4,
            source.spec_bytes().len() <= u32::MAX,
        ensures
            r@ == function_documentation(parts@, body_indent_level as int, source@, source_file@),
    {
        let first_line = row_of_offset(source, parts.start);
        let last_line = row_of_offset(source, parts.end);
        FunctionDocumentation {
            name: parts.name,
            docstring: extract_docstring_from_body(parts.body, body_indent_level),
            return_type: parts.returns,
            args: parts.args,
            generics: parts.type_params,
            first_line,
            last_line,
            source_file,
        }
    }

    /// The documentation of a function or method definition; `None` for other statements.
    pub fn from_statements(
        value: &Stmt,
        body_indent_level: usize,
        source: &str,
        source_file: String,
    ) -> (r: Option<Self>)
        requires
            body_indent_level < usize::MAX / 4,
            source.spec_bytes().len() <= u32::MAX,
        ensures
            opt_function_view(r) == statement_function(
                *value,
                body_indent_level + 1,
                source@,
                source_file@,
            ),
    {
        match classify_statement(value) {
            StatementRef::AsyncFunctionDef(def) => Some(
                FunctionDocumentation::from_async_function_statements(
                    def,
                    body_indent_level + 1,
                    source,
                    source_file,
                ),
            ),
            StatementRef::FunctionDef(def) => Some(
                FunctionDocumentation::from_function_statements(
                    def,
                    body_indent_level + 1,
                    source,
                    source_file,
                ),
            ),
            _ => None,
        }
    }

    pub fn from_async_function_statements(
        value: &StmtAsyncFunctionDef,
        body_indent_level: usize,
        source: &str,
        source_file: String,
    ) -> (r: Self)
        requires
            body_indent_level <= usize::MAX / 4,
            source.spec_bytes().len() <= u32::MAX,
        ensures
            r@ == function_documentation(
                async_function_def_fields(*value),
                body_indent_level as int,
                source@,
                source_file@,
            ),
    {
        let parts = async_function_def_parts(value);
        FunctionDocumentation::from_parts(parts, body_indent_level, source, source_file)
    }

    pub fn from_function_statements(
        value: &StmtFunctionDef,
        body_indent_level: usize,
        source: &str,
        source_file: String,
    ) -> (r: Self)
        requires
            body_indent_level <= usize::MAX / 4,
            source.spec_bytes().len() <= u32::MAX,
        ensures
            r@ == function_documentation(
                function_def_fields(*value),
                body_indent_level as int,
                source@,
                source_file@,
            ),
    {
        let parts = function_def_parts(value);
        FunctionDocumentation::from_parts(parts, body_indent_level, source, source_file)
    }
}

pub fn is_private_function(fn_doc: &FunctionDocumentation) -> (b: bool)
    ensures
        b == is_private_name(fn_doc.name@),
{
    starts_with_underscore(&fn_doc.name)
}

} // verus!
