use crate::indexing::content::{ContentNode, ContentNodeView};
use crate::indexing::validated::{ValidatedContentNode, ValidatedContentNodeView};
use crate::parsing::python::class::{
    copy_functions, function_views, is_private_class, ClassDocumentation, ClassDocumentationView,
};
use crate::parsing::python::class::{
    class_documentation, dedented_docstring, function_defs, law_methods_are_the_function_definitions,
};
use crate::parsing::python::docstring::{body_docstring_nodes, extract_docstring_from_body};
use crate::parsing::python::function::{
    copy_docstring, docstring_view, function_documentation, validated_docstring_view,
    is_private_function, is_private_name, FunctionDocumentation, FunctionDocumentationView,
};
use crate::parsing::python::syntax::{
    assignment_fields, assignment_of, async_function_def_fields, class_def_fields,
    classify_statement, function_def_fields, module_body, module_statements, statement_def,
    AssignedValue, Assignment, StatementDef, StatementRef,
};
use rustpython_parser::ast::{Mod, Stmt};
use vstd::prelude::*;
use vstd::string::StringSliceAdditionalSpecFns;

verus! {

/// The documentation of a module after the references in its docstring were looked up.
#[derive(Debug)]
pub struct ValidatedModuleDocumentation {
    pub docstring: Option<Vec<ValidatedContentNode>>,
    pub functions: Vec<String>,
    pub classes: Vec<String>,
    pub sub_modules: Option<Vec<String>>,
    pub exports: Option<Vec<String>>,
    pub source_file: String,
}

/// The documentation of a module: its docstring, the functions and classes it defines
/// that are kept, and the names it exports through `__all__`.
#[derive(Debug, PartialEq)]
pub struct ModuleDocumentation {
    pub docstring: Option<Vec<ContentNode>>,
    pub functions: Vec<FunctionDocumentation>,
    pub classes: Vec<ClassDocumentation>,
    pub sub_modules: Option<Vec<String>>,
    pub exports: Option<Vec<String>>,
    pub source_file: String,
    /// `__all__` was defined more than once; the last definition holds.
    pub exports_redefined: bool,
}

/// The mathematical value of a [`ValidatedModuleDocumentation`].
pub struct ValidatedModuleDocumentationView {
    pub docstring: Option<Seq<ValidatedContentNodeView>>,
    pub functions: Seq<Seq<char>>,
    pub classes: Seq<Seq<char>>,
    pub sub_modules: Option<Seq<Seq<char>>>,
    pub exports: Option<Seq<Seq<char>>>,
    pub source_file: Seq<char>,
}

impl View for ValidatedModuleDocumentation {
    type V = ValidatedModuleDocumentationView;

    open spec fn view(&self) -> ValidatedModuleDocumentationView {
        ValidatedModuleDocumentationView {
            docstring: validated_docstring_view(self.docstring),
            functions: strings_view(self.functions@),
            classes: strings_view(self.classes@),
            sub_modules: opt_strings_view(self.sub_modules),
            exports: opt_strings_view(self.exports),
            source_file: self.source_file@,
        }
    }
}

pub open spec fn strings_view(v: Seq<String>) -> Seq<Seq<char>> {
    v.map_values(|s: String| s@)
}

pub open spec fn opt_strings_view(v: Option<Vec<String>>) -> Option<Seq<Seq<char>>> {
    match v {
        Some(s) => Some(strings_view(s@)),
        None => None,
    }
}

pub open spec fn class_views(cs: Seq<ClassDocumentation>) -> Seq<ClassDocumentationView> {
    cs.map_values(|c: ClassDocumentation| c@)
}

/// The mathematical value of a [`ModuleDocumentation`].
pub struct ModuleDocumentationView {
    pub docstring: Option<Seq<ContentNodeView>>,
    pub functions: Seq<FunctionDocumentationView>,
    pub classes: Seq<ClassDocumentationView>,
    pub sub_modules: Option<Seq<Seq<char>>>,
    pub exports: Option<Seq<Seq<char>>>,
    pub source_file: Seq<char>,
    pub exports_redefined: bool,
}

impl View for ModuleDocumentation {
    type V = ModuleDocumentationView;

    open spec fn view(&self) -> ModuleDocumentationView {
        ModuleDocumentationView {
            docstring: docstring_view(self.docstring),
            functions: function_views(self.functions@),
            classes: class_views(self.classes@),
            sub_modules: opt_strings_view(self.sub_modules),
            exports: opt_strings_view(self.exports),
            source_file: self.source_file@,
            exports_redefined: self.exports_redefined,
        }
    }
}

impl Default for ModuleDocumentation {
    fn default() -> (r: Self)
        ensures
            r@ == ModuleDocumentation::default_view(),
    {
        let r = ModuleDocumentation {
            docstring: None,
            functions: Vec::new(),
            classes: Vec::new(),
            sub_modules: None,
            exports: None,
            source_file: String::new(),
            exports_redefined: false,
        };
        assert(r@.functions =~= Seq::<FunctionDocumentationView>::empty());
        assert(r@.classes =~= Seq::<ClassDocumentationView>::empty());
        r
    }
}

/// A copy of a list of strings.
pub fn copy_strings(v: &Vec<String>) -> (r: Vec<String>)
    ensures
        r@ == v@,
{
    let mut r: Vec<String> = Vec::new();
    let mut i: usize = 0;
    while i < v.len()
        invariant
            i <= v.len(),
            r@ == v@.take(i as int),
        decreases v.len() - i,
    {
        r.push(v[i].clone());
        assert(r@ == v@.take(i + 1));
        i += 1;
    }
    assert(r@ == v@);
    r
}

pub fn copy_opt_strings(v: &Option<Vec<String>>) -> (r: Option<Vec<String>>)
    ensures
        opt_strings_view(r) == opt_strings_view(*v),
        r is Some <==> v is Some,
        r matches Some(x) ==> x@ == v->0@,
{
    match v {
        Some(x) => Some(copy_strings(x)),
        None => None,
    }
}

/// A copy of a list of class documentations.
pub fn copy_classes(v: &Vec<ClassDocumentation>) -> (r: Vec<ClassDocumentation>)
    ensures
        class_views(r@) == class_views(v@),
{
    let mut r: Vec<ClassDocumentation> = Vec::new();
    let mut i: usize = 0;
    while i < v.len()
        invariant
            i <= v.len(),
            r@.len() == i,
            forall|j: int| 0 <= j < i ==> #[trigger] r@[j]@ == v@[j]@,
        decreases v.len() - i,
    {
        let c = v[i].clone();
        r.push(c);
        i += 1;
    }
    assert(class_views(r@) =~= class_views(v@));
    r
}

impl Clone for ModuleDocumentation {
    fn clone(&self) -> (r: Self)
        ensures
            r@ == self@,
    {
        ModuleDocumentation {
            docstring: copy_docstring(&self.docstring),
            functions: copy_functions(&self.functions),
            classes: copy_classes(&self.classes),
            sub_modules: copy_opt_strings(&self.sub_modules),
            exports: copy_opt_strings(&self.exports),
            source_file: self.source_file.clone(),
            exports_redefined: self.exports_redefined,
        }
    }
}

impl Default for ValidatedModuleDocumentation {
    fn default() -> (r: Self)
        ensures
            r.docstring is None,
            r.functions@.len() == 0,
            r.classes@.len() == 0,
            r.sub_modules is None,
            r.exports is None,
            r.source_file@ == Seq::<char>::empty(),
    {
        ValidatedModuleDocumentation {
            docstring: None,
            functions: Vec::new(),
            classes: Vec::new(),
            sub_modules: None,
            exports: None,
            source_file: String::new(),
        }
    }
}

/// Why an assignment gives no exports.
#[derive(Debug, PartialEq, Eq, Clone, Copy)]
pub enum ExportsError {
    /// No target of the assignment is `__all__`.
    NotAll,
    /// `__all__` is assigned something other than a list literal.
    NotList,
}

pub open spec fn dunder_all() -> Seq<char> {
    seq!['_', '_', 'a', 'l', 'l', '_', '_']
}

/// A target that is the plain name `name`.
pub open spec fn is_target_name(t: Option<String>, name: Seq<char>) -> bool {
    match t {
        Some(n) => n@ == name,
        None => false,
    }
}

/// Some target of the assignment is the plain name `__all__`.
pub open spec fn assigns_all(target_names: Seq<Option<String>>) -> bool {
    exists|i: int| 0 <= i < target_names.len() && is_target_name(#[trigger] target_names[i], dunder_all())
}

/// The string constants among list elements, in order.
pub open spec fn string_elements(elts: Seq<Option<String>>) -> Seq<Seq<char>>
    decreases elts.len(),
{
    if elts.len() == 0 {
        Seq::empty()
    } else {
        string_elements(elts.drop_last()) + match elts.last() {
            Some(s) => seq![s@],
            None => Seq::empty(),
        }
    }
}

/// The names that an assignment exports: the string constants of the list literal assigned
/// to `__all__`.
pub open spec fn exports_of(a: Assignment) -> Result<Seq<Seq<char>>, ExportsError> {
    if !assigns_all(a.target_names@) {
        Err(ExportsError::NotAll)
    } else {
        match a.value {
            AssignedValue::List(elts) => Ok(string_elements(elts@)),
            AssignedValue::Other => Err(ExportsError::NotList),
        }
    }
}

/// The exports that an assignment statement defines, if it assigns a list to `__all__`.
pub fn extract_exports_from_statement(statement: &Assignment) -> (r: Result<
    Vec<String>,
    ExportsError,
>)
    ensures
        match exports_of(*statement) {
            Ok(names) => r matches Ok(v) && strings_view(v@) == names,
            Err(e) => r == Err::<Vec<String>, ExportsError>(e),
        },
{
    let all = String::from_str("__all__");
    proof {
        reveal_strlit("__all__");
    }
    let mut found = false;
    let mut i: usize = 0;
    while i < statement.target_names.len()
        invariant
            i <= statement.target_names@.len(),
            all@ == dunder_all(),
            found <==> exists|j: int|
                0 <= j < i && is_target_name(#[trigger] statement.target_names@[j], dunder_all()),
        decreases statement.target_names@.len() - i,
    {
        match &statement.target_names[i] {
            Some(n) => {
                if *n == all {
                    found = true;
                }
            },
            None => {},
        }
        i += 1;
    }
    if !found {
        return Err(ExportsError::NotAll);
    }
    match &statement.value {
        AssignedValue::List(elts) => {
            let mut names: Vec<String> = Vec::new();
            let mut k: usize = 0;
            while k < elts.len()
                invariant
                    k <= elts@.len(),
                    strings_view(names@) == string_elements(elts@.take(k as int)),
                decreases elts@.len() - k,
            {
                assert(elts@.take(k + 1).drop_last() == elts@.take(k as int));
                match &elts[k] {
                    Some(s) => {
                        let ghost prev = names@;
                        names.push(s.clone());
                        assert(strings_view(names@) =~= strings_view(prev) + seq![s@]);
                    },
                    None => {},
                }
                k += 1;
            }
            assert(elts@.take(elts@.len() as int) == elts@);
            Ok(names)
        },
        AssignedValue::Other => Err(ExportsError::NotList),
    }
}


/// A statement of a module body, as far as its documentation is concerned.
pub enum ModuleItem {
    Function(FunctionDocumentation),
    Class(ClassDocumentation),
    Assignment(Assignment),
    Other,
}

/// The mathematical value of a [`ModuleItem`].
pub enum ModuleItemView {
    Function(FunctionDocumentationView),
    Class(ClassDocumentationView),
    Assignment(Assignment),
    Other,
}

impl View for ModuleItem {
    type V = ModuleItemView;

    open spec fn view(&self) -> ModuleItemView {
        match self {
            ModuleItem::Function(f) => ModuleItemView::Function(f@),
            ModuleItem::Class(c) => ModuleItemView::Class(c@),
            ModuleItem::Assignment(a) => ModuleItemView::Assignment(*a),
            ModuleItem::Other => ModuleItemView::Other,
        }
    }
}

pub open spec fn item_views(items: Seq<ModuleItem>) -> Seq<ModuleItemView> {
    items.map_values(|i: ModuleItem| i@)
}

/// A function is kept unless it is undocumented and undocumented objects are skipped, or it
/// is private and private objects are skipped.
pub open spec fn keeps_function(f: FunctionDocumentationView, skip_private: bool, skip_undoc: bool) -> bool {
    &&& !(f.docstring is None && skip_undoc)
    &&& !(is_private_name(f.name) && skip_private)
}

/// A class is kept unless it is private and private objects are skipped, or it is
/// undocumented and undocumented objects are skipped.
pub open spec fn keeps_class(c: ClassDocumentationView, skip_private: bool, skip_undoc: bool) -> bool {
    &&& !(is_private_name(c.name) && skip_private)
    &&& !(c.docstring is None && skip_undoc)
}

/// The kept functions among the items, in order.
pub open spec fn kept_functions(items: Seq<ModuleItemView>, skip_private: bool, skip_undoc: bool) -> Seq<
    FunctionDocumentationView,
>
    decreases items.len(),
{
    if items.len() == 0 {
        Seq::empty()
    } else {
        kept_functions(items.drop_last(), skip_private, skip_undoc) + match items.last() {
            ModuleItemView::Function(f) => if keeps_function(f, skip_private, skip_undoc) {
                seq![f]
            } else {
                Seq::empty()
            },
            _ => Seq::empty(),
        }
    }
}

/// The kept classes among the items, in order.
pub open spec fn kept_classes(items: Seq<ModuleItemView>, skip_private: bool, skip_undoc: bool) -> Seq<
    ClassDocumentationView,
>
    decreases items.len(),
{
    if items.len() == 0 {
        Seq::empty()
    } else {
        kept_classes(items.drop_last(), skip_private, skip_undoc) + match items.last() {
            ModuleItemView::Class(c) => if keeps_class(c, skip_private, skip_undoc) {
                seq![c]
            } else {
                Seq::empty()
            },
            _ => Seq::empty(),
        }
    }
}

/// The exports of the last assignment among the items that defines them; a later
/// definition of `__all__` replaces an earlier one.
pub open spec fn last_exports(items: Seq<ModuleItemView>) -> Option<Seq<Seq<char>>>
    decreases items.len(),
{
    if items.len() == 0 {
        None
    } else {
        match items.last() {
            ModuleItemView::Assignment(a) => match exports_of(a) {
                Ok(e) => Some(e),
                Err(_) => last_exports(items.drop_last()),
            },
            _ => last_exports(items.drop_last()),
        }
    }
}

/// How many of the items define the exports.
pub open spec fn export_definitions(items: Seq<ModuleItemView>) -> nat
    decreases items.len(),
{
    if items.len() == 0 {
        0
    } else {
        export_definitions(items.drop_last()) + match items.last() {
            ModuleItemView::Assignment(a) => if exports_of(a) is Ok {
                1nat
            } else {
                0nat
            },
            _ => 0nat,
        }
    }
}

/// The documentation of a module whose body consists of `items`.
pub open spec fn documented_module(
    items: Seq<ModuleItemView>,
    docstring: Option<Seq<ContentNodeView>>,
    skip_private: bool,
    skip_undoc: bool,
    source_file: Seq<char>,
) -> ModuleDocumentationView {
    ModuleDocumentationView {
        docstring,
        functions: kept_functions(items, skip_private, skip_undoc),
        classes: kept_classes(items, skip_private, skip_undoc),
        sub_modules: None,
        exports: last_exports(items),
        source_file,
        exports_redefined: export_definitions(items) > 1,
    }
}

/// Collects the documentation of a module body: keeps its functions and classes by the
/// skip settings, takes its exports from the last assignment to `__all__`, and tells
/// whether `__all__` was assigned more than once.
pub fn document_items(
    items: Vec<ModuleItem>,
    docstring: Option<Vec<ContentNode>>,
    skip_private: bool,
    skip_undoc: bool,
    source_file: String,
) -> (r: ModuleDocumentation)
    ensures
        r@ == documented_module(
            item_views(items@),
            docstring_view(docstring),
            skip_private,
            skip_undoc,
            source_file@,
        ),
{
    let ghost all = item_views(items@);
    let mut functions: Vec<FunctionDocumentation> = Vec::new();
    let mut classes: Vec<ClassDocumentation> = Vec::new();
    let mut exports: Option<Vec<String>> = None;
    let mut redefined = false;
    for item in it: items
        invariant
            all == item_views(it.seq()),
            function_views(functions@) == kept_functions(
                all.take(it.index() as int),
                skip_private,
                skip_undoc,
            ),
            class_views(classes@) == kept_classes(
                all.take(it.index() as int),
                skip_private,
                skip_undoc,
            ),
            opt_strings_view(exports) == last_exports(all.take(it.index() as int)),
            exports is Some <==> export_definitions(all.take(it.index() as int)) > 0,
            redefined <==> export_definitions(all.take(it.index() as int)) > 1,
    {
        let ghost i = it.index() as int;
        assert(all.take(i + 1).drop_last() == all.take(i));
        assert(all.take(i + 1).last() == item@);
        let ghost prev_f = functions@;
        let ghost prev_c = classes@;
        match item {
            ModuleItem::Function(f) => {
                if !(f.docstring.is_none() && skip_undoc) && !(is_private_function(&f)
                    && skip_private) {
                    functions.push(f);
                    assert(function_views(functions@) =~= function_views(prev_f).push(f@));
                }
            },
            ModuleItem::Class(c) => {
                if !(is_private_class(&c) && skip_private) && !(c.docstring.is_none()
                    && skip_undoc) {
                    classes.push(c);
                    assert(class_views(classes@) =~= class_views(prev_c).push(c@));
                }
            },
            ModuleItem::Assignment(a) => {
                match extract_exports_from_statement(&a) {
                    Ok(exported) => {
                        if exports.is_some() {
                            redefined = true;
                        }
                        exports = Some(exported);
                    },
                    Err(_) => {},
                }
            },
            ModuleItem::Other => {},
        }
    }
    assert(all.take(all.len() as int) == all);
    ModuleDocumentation {
        docstring,
        functions,
        classes,
        sub_modules: None,
        exports,
        source_file,
        exports_redefined: redefined,
    }
}

/// The item that a statement of a module body gives; definitions are documented with
/// their bodies one level deep.
pub open spec fn statement_item(s: Stmt, source: Seq<char>, source_file: Seq<char>) -> ModuleItemView {
    match statement_def(s) {
        StatementDef::FunctionDef(d) => ModuleItemView::Function(
            function_documentation(function_def_fields(d), 1, source, source_file),
        ),
        StatementDef::AsyncFunctionDef(d) => ModuleItemView::Function(
            function_documentation(async_function_def_fields(d), 1, source, source_file),
        ),
        StatementDef::ClassDef(d) => ModuleItemView::Class(
            class_documentation(class_def_fields(d), 1, source, source_file),
        ),
        StatementDef::Assign(a) => ModuleItemView::Assignment(assignment_fields(a)),
        StatementDef::Other => ModuleItemView::Other,
    }
}

pub open spec fn statement_items(
    statements: Seq<Stmt>,
    source: Seq<char>,
    source_file: Seq<char>,
) -> Seq<ModuleItemView> {
    statements.map_values(|s: Stmt| statement_item(s, source, source_file))
}

/// What a statement of a module body documents: a function definition, async or not,
/// gives a function of its name whose docstring loses the four spaces of its body's
/// indent; a class definition gives a class of its name whose docstring loses four spaces,
/// with one method for each function definition directly in its body, in order, each of
/// that definition's name and with a docstring that loses the eight spaces of its body's
/// indent.
pub proof fn law_statement_documentation(s: Stmt, source: Seq<char>, source_file: Seq<char>)
    ensures
        match statement_def(s) {
            StatementDef::FunctionDef(d) => statement_item(s, source, source_file) matches ModuleItemView::Function(f)
                && f.name == function_def_fields(d).name && f.docstring == dedented_docstring(
                function_def_fields(d).body,
                4,
            ),
            StatementDef::AsyncFunctionDef(d) => statement_item(s, source, source_file) matches ModuleItemView::Function(f)
                && f.name == async_function_def_fields(d).name && f.docstring == dedented_docstring(
                async_function_def_fields(d).body,
                4,
            ),
            StatementDef::ClassDef(c) => statement_item(s, source, source_file) matches ModuleItemView::Class(cv)
                && {
                let body = class_def_fields(c).body;
                &&& cv.name == class_def_fields(c).name
                &&& cv.docstring == dedented_docstring(body, 4)
                &&& cv.methods.len() == function_defs(body).len()
                &&& forall|j: int|
                    0 <= j < function_defs(body).len() ==> {
                        &&& (#[trigger] cv.methods[j]).name == function_defs(body)[j].name
                        &&& cv.methods[j].docstring == dedented_docstring(
                            function_defs(body)[j].body,
                            8,
                        )
                    }
            },
            _ => true,
        },
{
    if let StatementDef::ClassDef(c) = statement_def(s) {
        law_methods_are_the_function_definitions(class_def_fields(c).body, 1, source, source_file);
    }
}

/// The documentation of a module whose statements are `statements`.
pub open spec fn module_documentation(
    statements: Seq<Stmt>,
    skip_private: bool,
    skip_undoc: bool,
    source: Seq<char>,
    source_file: Seq<char>,
) -> ModuleDocumentationView {
    documented_module(
        statement_items(statements, source, source_file),
        body_docstring_nodes(statements, 0),
        skip_private,
        skip_undoc,
        source_file,
    )
}

/// The documentation of a parsed module: that of its statements, or the empty
/// documentation for the other kinds of `Mod`.
pub open spec fn extracted_module(
    input_module: Mod,
    skip_private: bool,
    skip_undoc: bool,
    source: Seq<char>,
    source_file: Seq<char>,
) -> ModuleDocumentationView {
    match module_statements(input_module) {
        Some(body) => module_documentation(body, skip_private, skip_undoc, source, source_file),
        None => ModuleDocumentation::default_view(),
    }
}

/// The documentation of a module body, whose statements stand at indent level 0.
pub fn extract_documentation_from_statements(
    statements: &Vec<Stmt>,
    skip_private: bool,
    skip_undoc: bool,
    source: &str,
    source_file: String,
) -> (r: ModuleDocumentation)
    requires
        source.spec_bytes().len() <= u32::MAX,
    ensures
        r@ == module_documentation(statements@, skip_private, skip_undoc, source@, source_file@),
{
    let docstring = extract_docstring_from_body(statements, 0);
    let mut items: Vec<ModuleItem> = Vec::new();
    let mut i: usize = 0;
    while i < statements.len()
        invariant
            i <= statements.len(),
            source.spec_bytes().len() <= u32::MAX,
            item_views(items@) == statement_items(statements@.take(i as int), source@, source_file@),
        decreases statements.len() - i,
    {
        let ghost prev = items@;
        match classify_statement(&statements[i]) {
            StatementRef::Assign(a) => items.push(ModuleItem::Assignment(assignment_of(a))),
            StatementRef::FunctionDef(def) => items.push(
                ModuleItem::Function(
                    FunctionDocumentation::from_function_statements(
                        def,
                        1,
                        source,
                        source_file.clone(),
                    ),
                ),
            ),
            StatementRef::AsyncFunctionDef(def) => items.push(
                ModuleItem::Function(
                    FunctionDocumentation::from_async_function_statements(
                        def,
                        1,
                        source,
                        source_file.clone(),
                    ),
                ),
            ),
            StatementRef::ClassDef(def) => items.push(
                ModuleItem::Class(
                    ClassDocumentation::from_class_statements(def, 1, source, source_file.clone()),
                ),
            ),
            StatementRef::Other => items.push(ModuleItem::Other),
        }
        assert(items@ == prev.push(items@.last()));
        assert(statements@.take(i + 1) == statements@.take(i as int).push(statements@[i as int]));
        assert(item_views(items@) =~= item_views(prev).push(items@.last()@));
        assert(statement_items(statements@.take(i + 1), source@, source_file@) =~= statement_items(
            statements@.take(i as int),
            source@,
            source_file@,
        ).push(statement_item(statements@[i as int], source@, source_file@)));
        i += 1;
    }
    assert(statements@.take(statements@.len() as int) == statements@);
    document_items(items, docstring, skip_private, skip_undoc, source_file)
}

/// The documentation of a parsed module; other kinds of `Mod` (an expression, an
/// interactive session) give empty documentation.
pub fn extract_module_documentation(
    input_module: &Mod,
    skip_private: bool,
    skip_undoc: bool,
    source: &str,
    source_file: String,
) -> (r: ModuleDocumentation)
    requires
        source.spec_bytes().len() <= u32::MAX,
    ensures
        r@ == extracted_module(*input_module, skip_private, skip_undoc, source@, source_file@),
{
    match module_body(input_module) {
        Some(body) => extract_documentation_from_statements(
            body,
            skip_private,
            skip_undoc,
            source,
            source_file,
        ),
        None => {
            ModuleDocumentation::default()
        },
    }
}

impl ModuleDocumentation {
    /// The value of an empty module documentation.
    pub open spec fn default_view() -> ModuleDocumentationView {
        ModuleDocumentationView {
            docstring: None,
            functions: Seq::empty(),
            classes: Seq::empty(),
            sub_modules: None,
            exports: None,
            source_file: Seq::empty(),
            exports_redefined: false,
        }
    }
}

} // verus!
