use rustpython_parser::ast::{
    Arguments, Expr, Mod, Stmt, StmtAssign, StmtAsyncFunctionDef, StmtClassDef, StmtFunctionDef,
    TypeParam,
};
use rustpython_parser::text_size::{TextRange, TextSize};
use vstd::prelude::*;
use vstd::string::StringSliceAdditionalSpecFns;

verus! {

#[verifier::external_type_specification]
#[verifier::external_body]
pub struct ExTextRange(TextRange);

#[verifier::external_type_specification]
#[verifier::external_body]
#[verifier::reject_recursive_types(R)]
pub struct ExMod<R>(Mod<R>);

#[verifier::external_type_specification]
#[verifier::external_body]
#[verifier::reject_recursive_types(R)]
pub struct ExStmt<R>(Stmt<R>);

#[verifier::external_type_specification]
#[verifier::external_body]
#[verifier::reject_recursive_types(R)]
pub struct ExStmtFunctionDef<R>(StmtFunctionDef<R>);

#[verifier::external_type_specification]
#[verifier::external_body]
#[verifier::reject_recursive_types(R)]
pub struct ExStmtAsyncFunctionDef<R>(StmtAsyncFunctionDef<R>);

#[verifier::external_type_specification]
#[verifier::external_body]
#[verifier::reject_recursive_types(R)]
pub struct ExStmtClassDef<R>(StmtClassDef<R>);

#[verifier::external_type_specification]
#[verifier::external_body]
#[verifier::reject_recursive_types(R)]
pub struct ExStmtAssign<R>(StmtAssign<R>);

#[verifier::external_type_specification]
#[verifier::external_body]
#[verifier::reject_recursive_types(R)]
pub struct ExExpr<R>(Expr<R>);

#[verifier::external_type_specification]
#[verifier::external_body]
#[verifier::reject_recursive_types(R)]
pub struct ExArguments<R>(Arguments<R>);

#[verifier::external_type_specification]
#[verifier::external_body]
#[verifier::reject_recursive_types(R)]
pub struct ExTypeParam<R>(TypeParam<R>);

/// What `rustpython_parser::parse` gives for `source` parsed as a module: the module, or
/// the message of its error.
pub uninterp spec fn python_parse(source: Seq<char>) -> Result<Mod, Seq<char>>;

/// Parses Python source as a module, with `rustpython_parser::parse`; an error comes back
/// as its message. The parser's offsets are `u32`, so the source's byte length must fit.
#[verifier::external_body]
pub fn parse_python_str(source: &str) -> (r: Result<Mod, String>)
    requires
        source.spec_bytes().len() <= u32::MAX,
    ensures
        match python_parse(source@) {
            Ok(m) => r matches Ok(x) && x == m,
            Err(message) => r matches Err(e) && e@ == message,
        },
{
    rustpython_parser::parse(source, rustpython_parser::Mode::Module, "<embedded>").map_err(
        |e| e.to_string(),
    )
}

/// The statements of a module, or `None` for the other kinds of `Mod` (an expression, an
/// interactive session, a function type).
pub uninterp spec fn module_statements(m: Mod) -> Option<Seq<Stmt>>;

/// The statements of a module (`Mod::Module`), or `None` for the other kinds of `Mod`.
#[verifier::external_body]
pub(crate) fn module_body(m: &Mod) -> (r: Option<&Vec<Stmt>>)
    ensures
        match module_statements(*m) {
            Some(body) => r matches Some(v) && v@ == body,
            None => r is None,
        },
{
    match m {
        Mod::Module(mm) => Some(&mm.body),
        _ => None,
    }
}


/// A statement of a module or class body, told apart by its kind.
pub enum StatementRef<'a> {
    FunctionDef(&'a StmtFunctionDef),
    AsyncFunctionDef(&'a StmtAsyncFunctionDef),
    ClassDef(&'a StmtClassDef),
    Assign(&'a StmtAssign),
    Other,
}

/// A statement of a module or class body, by the definition it holds where it is one of
/// the four kinds that documentation reads.
pub enum StatementDef {
    FunctionDef(StmtFunctionDef),
    AsyncFunctionDef(StmtAsyncFunctionDef),
    ClassDef(StmtClassDef),
    Assign(StmtAssign),
    Other,
}

/// The variant of `Stmt` that a statement is, with the definition it holds.
pub uninterp spec fn statement_def(s: Stmt) -> StatementDef;

/// Tells the kinds of statement apart, one arm per variant of `Stmt`, and hands out the
/// definition it holds.
#[verifier::external_body]
pub(crate) fn classify_statement(s: &Stmt) -> (r: StatementRef<'_>)
    ensures
        match statement_def(*s) {
            StatementDef::FunctionDef(d) => r matches StatementRef::FunctionDef(f) && *f == d,
            StatementDef::AsyncFunctionDef(d) => r matches StatementRef::AsyncFunctionDef(f)
                && *f == d,
            StatementDef::ClassDef(d) => r matches StatementRef::ClassDef(c) && *c == d,
            StatementDef::Assign(d) => r matches StatementRef::Assign(a) && *a == d,
            StatementDef::Other => r is Other,
        },
{
    match s {
        Stmt::FunctionDef(f) => StatementRef::FunctionDef(f),
        Stmt::AsyncFunctionDef(f) => StatementRef::AsyncFunctionDef(f),
        Stmt::ClassDef(c) => StatementRef::ClassDef(c),
        Stmt::Assign(a) => StatementRef::Assign(a),
        _ => StatementRef::Other,
    }
}

/// What a (possibly async) function definition holds: its name, body, return annotation,
/// parameters, type parameters, and the byte offsets where it starts and ends.
pub struct FunctionParts<'a> {
    pub name: String,
    pub body: &'a Vec<Stmt>,
    pub returns: Option<Expr>,
    pub args: Arguments,
    pub type_params: Vec<TypeParam>,
    pub start: u32,
    pub end: u32,
}

/// The mathematical value of the fields of a function definition.
pub struct FunctionFields {
    pub name: Seq<char>,
    pub body: Seq<Stmt>,
    pub returns: Option<Expr>,
    pub args: Arguments,
    pub type_params: Seq<TypeParam>,
    pub start: u32,
    pub end: u32,
}

impl<'a> View for FunctionParts<'a> {
    type V = FunctionFields;

    open spec fn view(&self) -> FunctionFields {
        FunctionFields {
            name: self.name@,
            body: self.body@,
            returns: self.returns,
            args: self.args,
            type_params: self.type_params@,
            start: self.start,
            end: self.end,
        }
    }
}

/// The fields of a `StmtFunctionDef`: its name, body, return annotation, parameters, type
/// parameters and the byte offsets of its range.
pub uninterp spec fn function_def_fields(f: StmtFunctionDef) -> FunctionFields;

/// The fields of a `StmtAsyncFunctionDef`, as [`function_def_fields`] gives them.
pub uninterp spec fn async_function_def_fields(f: StmtAsyncFunctionDef) -> FunctionFields;

/// The fields of a `StmtFunctionDef`, copied out.
#[verifier::external_body]
pub(crate) fn function_def_parts(f: &StmtFunctionDef) -> (r: FunctionParts<'_>)
    ensures
        r@ == function_def_fields(*f),
{
    FunctionParts {
        name: f.name.to_string(),
        body: &f.body,
        returns: f.returns.as_ref().map(|r| (**r).clone()),
        args: (*f.args).clone(),
        type_params: f.type_params.clone(),
        start: f.range.start().to_u32(),
        end: f.range.end().to_u32(),
    }
}

/// The fields of a `StmtAsyncFunctionDef`, copied out.
#[verifier::external_body]
pub(crate) fn async_function_def_parts(f: &StmtAsyncFunctionDef) -> (r: FunctionParts<'_>)
    ensures
        r@ == async_function_def_fields(*f),
{
    FunctionParts {
        name: f.name.to_string(),
        body: &f.body,
        returns: f.returns.as_ref().map(|r| (**r).clone()),
        args: (*f.args).clone(),
        type_params: f.type_params.clone(),
        start: f.range.start().to_u32(),
        end: f.range.end().to_u32(),
    }
}

/// What a class definition holds that its documentation reads.
pub struct ClassParts<'a> {
    pub name: String,
    pub body: &'a Vec<Stmt>,
    pub start: u32,
    pub end: u32,
}

/// The mathematical value of the fields of a class definition.
pub struct ClassFields {
    pub name: Seq<char>,
    pub body: Seq<Stmt>,
    pub start: u32,
    pub end: u32,
}

impl<'a> View for ClassParts<'a> {
    type V = ClassFields;

    open spec fn view(&self) -> ClassFields {
        ClassFields { name: self.name@, body: self.body@, start: self.start, end: self.end }
    }
}

/// The fields of a `StmtClassDef`: its name, body and the byte offsets of its range.
pub uninterp spec fn class_def_fields(c: StmtClassDef) -> ClassFields;

/// The fields of a `StmtClassDef`, copied out.
#[verifier::external_body]
pub(crate) fn class_def_parts(c: &StmtClassDef) -> (r: ClassParts<'_>)
    ensures
        r@ == class_def_fields(*c),
{
    ClassParts {
        name: c.name.to_string(),
        body: &c.body,
        start: c.range.start().to_u32(),
        end: c.range.end().to_u32(),
    }
}

/// The value assigned by an assignment statement, as far as exports are concerned: a list
/// literal, with each element given as the text of a string constant, or `None` for an
/// element that is no string constant.
pub enum AssignedValue {
    List(Vec<Option<String>>),
    Other,
}

/// An assignment statement: for each target the name it binds when it is a plain name,
/// and the assigned value.
pub struct Assignment {
    pub target_names: Vec<Option<String>>,
    pub value: AssignedValue,
}

/// What an assignment statement holds as far as exports are concerned: for each target the
/// name it binds when it is a plain name, and, where the value is a list literal, for each
/// element the text of the string constant it is.
pub uninterp spec fn assignment_fields(a: StmtAssign) -> Assignment;

/// Converts a `StmtAssign`, one target and one list element at a time.
#[verifier::external_body]
pub(crate) fn assignment_of(a: &StmtAssign) -> (r: Assignment)
    ensures
        r == assignment_fields(*a),
{
    Assignment {
        target_names: a.targets.iter().map(|t| t.as_name_expr().map(|n| n.id.to_string())).collect(),
        value: match &*a.value {
            Expr::List(l) => AssignedValue::List(
                l.elts.iter().map(|e| e.as_constant_expr().and_then(|c| c.value.as_str().cloned())).collect(),
            ),
            _ => AssignedValue::Other,
        },
    }
}

/// The text of the docstring of a body: the string constant of its first statement when
/// that is an expression statement holding a string constant, else `None`.
pub uninterp spec fn body_docstring(body: Seq<Stmt>) -> Option<Seq<char>>;

/// The docstring text of a body, read from its first statement.
#[verifier::external_body]
pub(crate) fn docstring_literal(body: &Vec<Stmt>) -> (r: Option<String>)
    ensures
        match body_docstring(body@) {
            Some(text) => r matches Some(t) && t@ == text,
            None => r is None,
        },
{
    match body.first() {
        Some(Stmt::Expr(e)) => e.value.as_constant_expr().and_then(|c| c.value.as_str().cloned()),
        _ => None,
    }
}

/// A copy of a return annotation, by its derived `Clone`, which copies field by field.
#[verifier::external_body]
pub(crate) fn copy_annotation(e: &Option<Expr>) -> (r: Option<Expr>)
    ensures
        r == *e,
{
    e.clone()
}

/// A copy of a parameter list, by its derived `Clone`, which copies field by field.
#[verifier::external_body]
pub(crate) fn copy_arguments(a: &Arguments) -> (r: Arguments)
    ensures
        r == *a,
{
    a.clone()
}

/// A copy of a list of type parameters, by the derived `Clone` of `TypeParam`.
#[verifier::external_body]
pub(crate) fn copy_type_params(t: &Vec<TypeParam>) -> (r: Vec<TypeParam>)
    ensures
        r@ == t@,
{
    t.clone()
}

/// The one-based line that a byte offset of `source` falls on, as `LineIndex::line_index`
/// of `rustpython_parser` reports it (and `RandomLocator::locate` with it).
pub uninterp spec fn source_row(source: Seq<char>, offset: u32) -> usize;

/// The line of a byte offset, from `LineIndex::line_index`, which looks the offset up among
/// the line starts; building the index needs the source's byte length to fit in `u32`.
#[verifier::external_body]
pub(crate) fn row_of_offset(source: &str, offset: u32) -> (row: usize)
    requires
        source.spec_bytes().len() <= u32::MAX,
    ensures
        row == source_row(source@, offset),
        row >= 1,
{
    rustpython_parser::source_code::LineIndex::from_source_text(source).line_index(
        TextSize::from(offset),
    ).to_usize()
}

} // verus!
