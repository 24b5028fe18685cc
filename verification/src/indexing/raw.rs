use crate::indexing::store::NameMap;
use crate::parsing::python::class::{ClassDocumentation, ClassDocumentationView};
use crate::parsing::python::function::{
    is_private_name, FunctionDocumentation, FunctionDocumentationView,
};
use crate::parsing::python::module::{
    extract_module_documentation, extracted_module, ModuleDocumentation,
    ModuleDocumentationView,
};
use crate::parsing::python::syntax::{parse_python_str, python_parse};
use crate::parsing::python::object::{ObjectDocumentation, ObjectDocumentationView};
use vstd::prelude::*;
use vstd::string::StringSliceAdditionalSpecFns;

verus! {

#[verifier::external_type_specification]
#[verifier::external_body]
pub struct ExCell(nbformat::v4::Cell);

/// Why indexing failed.
#[derive(Debug, PartialEq, Eq)]
pub enum IndexError {
    /// The package root has no file stem to name the package by.
    PackageName,
    /// A Python file did not parse; the parser's message.
    PythonSyntax(String),
    /// An object's fully qualified name was already indexed.
    DuplicateKey(String),
    /// An external index's base URL, or a location joined to it, is no valid URL.
    InvalidUrl(String),
    /// An inventory of external references could not be read; the reader's message.
    Inventory(String),
    /// A Python file lies outside the package root.
    OutsidePackage,
    /// A notebook's path has no file stem to name the notebook by.
    NotebookName,
    /// A notebook could not be read; the reader's message.
    Notebook(String),
}

/// Everything found in a package before references are checked: the documented objects by
/// their fully qualified names, the URLs of external objects, and the notebooks.
pub struct RawIndex {
    pub pkg_name: String,
    pub internal_object_store: NameMap<ObjectDocumentation>,
    pub external_object_store: NameMap<String>,
    pub notebook_store: NameMap<Vec<nbformat::v4::Cell>>,
    pub skip_undoc: bool,
    pub skip_private: bool,
    pub pkg_root: String,
}

/// The documented objects of a store, each by its value.
pub open spec fn objects_view(m: Map<Seq<char>, ObjectDocumentation>) -> Map<
    Seq<char>,
    ObjectDocumentationView,
> {
    m.map_values(|o: ObjectDocumentation| o@)
}

/// The fully qualified name of `name` inside `prefix`: `prefix.name`.
pub open spec fn qualified(prefix: Seq<char>, name: Seq<char>) -> Seq<char> {
    prefix + seq!['.'] + name
}

pub fn qualify(prefix: &String, name: &String) -> (r: String)
    ensures
        r@ == qualified(prefix@, name@),
{
    let mut r = prefix.clone();
    r.append(".");
    r.append(name.as_str());
    proof {
        reveal_strlit(".");
    }
    r
}

/// Adds the entries in order, failing when a name is already present.
pub open spec fn add_fresh(
    m: Map<Seq<char>, ObjectDocumentationView>,
    es: Seq<(Seq<char>, ObjectDocumentationView)>,
) -> Option<Map<Seq<char>, ObjectDocumentationView>>
    decreases es.len(),
{
    if es.len() == 0 {
        Some(m)
    } else if m.contains_key(es[0].0) {
        None
    } else {
        add_fresh(m.insert(es[0].0, es[0].1), es.drop_first())
    }
}

pub proof fn lemma_add_fresh_append(
    m: Map<Seq<char>, ObjectDocumentationView>,
    a: Seq<(Seq<char>, ObjectDocumentationView)>,
    b: Seq<(Seq<char>, ObjectDocumentationView)>,
)
    ensures
        add_fresh(m, a + b) == match add_fresh(m, a) {
            Some(m2) => add_fresh(m2, b),
            None => None,
        },
    decreases a.len(),
{
    if a.len() == 0 {
        assert(a + b == b);
    } else {
        assert((a + b)[0] == a[0]);
        assert((a + b).drop_first() == a.drop_first() + b);
        if !m.contains_key(a[0].0) {
            lemma_add_fresh_append(m.insert(a[0].0, a[0].1), a.drop_first(), b);
        }
    }
}

/// Adds the entries in order until one names an object already present: the objects at
/// that point, and that name (`None` when every entry was added).
pub open spec fn fresh_until_clash(
    m: Map<Seq<char>, ObjectDocumentationView>,
    es: Seq<(Seq<char>, ObjectDocumentationView)>,
) -> (Map<Seq<char>, ObjectDocumentationView>, Option<Seq<char>>)
    decreases es.len(),
{
    if es.len() == 0 {
        (m, None)
    } else if m.contains_key(es[0].0) {
        (m, Some(es[0].0))
    } else {
        fresh_until_clash(m.insert(es[0].0, es[0].1), es.drop_first())
    }
}

/// Once the first entries were added, adding more goes on from there; and when all were
/// added, no name clashed.
proof fn lemma_fresh_until_clash_after(
    m: Map<Seq<char>, ObjectDocumentationView>,
    a: Seq<(Seq<char>, ObjectDocumentationView)>,
    b: Seq<(Seq<char>, ObjectDocumentationView)>,
)
    ensures
        add_fresh(m, a) matches Some(m2) ==> fresh_until_clash(m, a + b) == fresh_until_clash(
            m2,
            b,
        ),
        add_fresh(m, a) matches Some(m2) ==> fresh_until_clash(m, a) == (
            m2,
            None::<Seq<char>>,
        ),
    decreases a.len(),
{
    if a.len() == 0 {
        assert(a + b == b);
    } else {
        assert((a + b)[0] == a[0]);
        assert((a + b).drop_first() == a.drop_first() + b);
        if !m.contains_key(a[0].0) {
            lemma_fresh_until_clash_after(m.insert(a[0].0, a[0].1), a.drop_first(), b);
        }
    }
}

/// Adding fresh entries succeeds only for distinct names, and then every entry is stored
/// with its value: nothing indexed is silently replaced.
pub proof fn law_fresh_entries_all_stored(
    m: Map<Seq<char>, ObjectDocumentationView>,
    es: Seq<(Seq<char>, ObjectDocumentationView)>,
)
    ensures
        add_fresh(m, es) matches Some(m2) ==> {
            &&& forall|i: int| 0 <= i < es.len() ==> !m.contains_key(#[trigger] es[i].0)
            &&& forall|i: int, j: int| 0 <= i < j < es.len() ==> #[trigger] es[i].0 != #[trigger] es[j].0
            &&& forall|i: int| 0 <= i < es.len() ==> #[trigger] m2.contains_key(es[i].0) && m2[es[i].0] == es[i].1
        },
    decreases es.len(),
{
    if es.len() > 0 && !m.contains_key(es[0].0) {
        let m1 = m.insert(es[0].0, es[0].1);
        let rest = es.drop_first();
        law_fresh_entries_all_stored(m1, rest);
        lemma_add_fresh_keeps(m1, rest);
        if let Some(m2) = add_fresh(m, es) {
            assert forall|i: int| 0 <= i < es.len() implies !m.contains_key(#[trigger] es[i].0) by {
                if i > 0 {
                    assert(rest[i - 1] == es[i]);
                }
            }
            assert forall|i: int, j: int| 0 <= i < j < es.len() implies #[trigger] es[i].0
                != #[trigger] es[j].0 by {
                assert(rest[j - 1] == es[j]);
                if i > 0 {
                    assert(rest[i - 1] == es[i]);
                } else {
                    assert(m1.contains_key(es[0].0));
                }
            }
            assert forall|i: int| 0 <= i < es.len() implies #[trigger] m2.contains_key(es[i].0)
                && m2[es[i].0] == es[i].1 by {
                if i > 0 {
                    assert(rest[i - 1] == es[i]);
                } else {
                    assert(m1.contains_key(es[0].0));
                }
            }
        }
    }
}

pub proof fn lemma_add_fresh_keeps(
    m: Map<Seq<char>, ObjectDocumentationView>,
    es: Seq<(Seq<char>, ObjectDocumentationView)>,
)
    ensures
        add_fresh(m, es) matches Some(m2) ==> {
            &&& forall|k: Seq<char>| #[trigger]
                m.contains_key(k) ==> m2.contains_key(k) && m2[k] == m[k]
            &&& forall|k: Seq<char>| #[trigger]
                m2.contains_key(k) ==> m.contains_key(k) || exists|i: int|
                    0 <= i < es.len() && #[trigger] es[i].0 == k
        },
    decreases es.len(),
{
    if es.len() > 0 && !m.contains_key(es[0].0) {
        let m1 = m.insert(es[0].0, es[0].1);
        lemma_add_fresh_keeps(m1, es.drop_first());
        if let Some(m2) = add_fresh(m, es) {
            assert forall|k: Seq<char>| #[trigger]
                m.contains_key(k) implies m2.contains_key(k) && m2[k] == m[k] by {
                assert(m1.contains_key(k));
            }
            assert forall|k: Seq<char>| #[trigger]
                m2.contains_key(k) implies m.contains_key(k) || exists|i: int|
                    0 <= i < es.len() && #[trigger] es[i].0 == k by {
                if !m1.contains_key(k) {
                    let i = choose|i: int|
                        0 <= i < es.drop_first().len() && #[trigger] es.drop_first()[i].0 == k;
                    assert(es[i + 1].0 == k);
                } else if k == es[0].0 {
                    assert(es[0].0 == k);
                }
            }
        }
    }
}

/// A class is included unless it is undocumented and undocumented objects are skipped, or
/// it is private and private objects are skipped.
pub open spec fn includes_class(c: ClassDocumentationView, skip_private: bool, skip_undoc: bool) -> bool {
    (!skip_undoc || c.docstring is Some) && !(skip_private && is_private_name(c.name))
}

/// The same rule for functions.
pub open spec fn includes_function(
    f: FunctionDocumentationView,
    skip_private: bool,
    skip_undoc: bool,
) -> bool {
    (!skip_undoc || f.docstring is Some) && !(skip_private && is_private_name(f.name))
}

/// A module is included unless it is undocumented and undocumented objects are skipped.
pub open spec fn includes_module(m: ModuleDocumentationView, skip_undoc: bool) -> bool {
    !skip_undoc || m.docstring is Some
}

pub fn should_include_class(
    class_docs: &ClassDocumentation,
    skip_private: bool,
    skip_undoc: bool,
) -> (b: bool)
    ensures
        b == includes_class(class_docs@, skip_private, skip_undoc),
{
    (!skip_undoc || class_docs.docstring.is_some()) && !(skip_private
        && crate::parsing::python::class::is_private_class(class_docs))
}

pub fn should_include_function(
    func_docs: &FunctionDocumentation,
    skip_private: bool,
    skip_undoc: bool,
) -> (b: bool)
    ensures
        b == includes_function(func_docs@, skip_private, skip_undoc),
{
    (!skip_undoc || func_docs.docstring.is_some()) && !(skip_private
        && crate::parsing::python::function::is_private_function(func_docs))
}

pub fn should_include_module(mod_docs: &ModuleDocumentation, skip_undoc: bool) -> (b: bool)
    ensures
        b == includes_module(mod_docs@, skip_undoc),
{
    !skip_undoc || mod_docs.docstring.is_some()
}

/// The index entry of a function inside `prefix`.
pub open spec fn function_entry(prefix: Seq<char>, f: FunctionDocumentationView) -> (
    Seq<char>,
    ObjectDocumentationView,
) {
    (qualified(prefix, f.name), ObjectDocumentationView::Function(f))
}

/// The index entries of a class inside `prefix`: its methods inside the class's name, then
/// the class itself.
pub open spec fn class_entries(prefix: Seq<char>, c: ClassDocumentationView) -> Seq<
    (Seq<char>, ObjectDocumentationView),
> {
    c.methods.map_values(|f: FunctionDocumentationView| function_entry(qualified(prefix, c.name), f))
        + seq![(qualified(prefix, c.name), ObjectDocumentationView::Class(c))]
}

/// `new` is `old` with only the internal store changed.
pub open spec fn same_but_internal(old: RawIndex, new: RawIndex) -> bool {
    &&& new.pkg_name == old.pkg_name
    &&& new.external_object_store == old.external_object_store
    &&& new.notebook_store == old.notebook_store
    &&& new.skip_undoc == old.skip_undoc
    &&& new.skip_private == old.skip_private
    &&& new.pkg_root == old.pkg_root
}

/// Every object the store held before it still holds.
pub open spec fn keeps_objects(old: RawIndex, new: RawIndex) -> bool {
    forall|k: Seq<char>| #[trigger]
        old.internal_object_store@.contains_key(k) ==> new.internal_object_store@.contains_key(k)
            && new.internal_object_store@[k]@ == old.internal_object_store@[k]@
}

/// Indexes a function under `prefix.name`; a name that is already indexed is refused.
pub fn index_functions(index: &mut RawIndex, func_docs: &FunctionDocumentation, prefix: String) -> (r:
    Result<(), IndexError>)
    ensures
        same_but_internal(*old(index), *final(index)),
        match add_fresh(
            objects_view(old(index).internal_object_store@),
            seq![function_entry(prefix@, func_docs@)],
        ) {
            Some(m) => r is Ok && objects_view(final(index).internal_object_store@) == m,
            None => r matches Err(IndexError::DuplicateKey(k)) && k@ == qualified(
                prefix@,
                func_docs@.name,
            ) && final(index).internal_object_store@ == old(index).internal_object_store@,
        },
{
    let full_prefix = qualify(&prefix, &func_docs.name);
    let ghost old_objects = objects_view(index.internal_object_store@);
    let ghost es = seq![function_entry(prefix@, func_docs@)];
    assert(es.drop_first() == Seq::<(Seq<char>, ObjectDocumentationView)>::empty());
    assert(es[0] == function_entry(prefix@, func_docs@));
    assert(old_objects.contains_key(full_prefix@) == index.internal_object_store@.contains_key(
        full_prefix@,
    ));
    assert(add_fresh(old_objects.insert(es[0].0, es[0].1), es.drop_first()) == Some(
        old_objects.insert(es[0].0, es[0].1),
    ));
    if index.internal_object_store.contains_key(&full_prefix) {
        Err(IndexError::DuplicateKey(full_prefix))
    } else {
        index.internal_object_store.insert(
            full_prefix,
            ObjectDocumentation::Function(func_docs.clone()),
        );
        assert(objects_view(index.internal_object_store@) =~= old_objects.insert(
            function_entry(prefix@, func_docs@).0,
            function_entry(prefix@, func_docs@).1,
        ));
        Ok(())
    }
}


/// Indexes a class under `prefix.name`, its methods under `prefix.name.method`, refusing
/// any name that is already indexed. On failure, everything indexed before stays.
pub fn index_class(index: &mut RawIndex, class_docs: &ClassDocumentation, prefix: String) -> (r:
    Result<(), IndexError>)
    ensures
        same_but_internal(*old(index), *final(index)),
        keeps_objects(*old(index), *final(index)),
        match add_fresh(
            objects_view(old(index).internal_object_store@),
            class_entries(prefix@, class_docs@),
        ) {
            Some(m) => r is Ok && objects_view(final(index).internal_object_store@) == m,
            None => r matches Err(IndexError::DuplicateKey(_)),
        },
        old(index).internal_object_store@.contains_key(qualified(prefix@, class_docs@.name)) ==> (
        r matches Err(IndexError::DuplicateKey(k)) && k@ == qualified(prefix@, class_docs@.name))
            && final(index).internal_object_store@ == old(index).internal_object_store@,
        objects_view(final(index).internal_object_store@) == class_step(
            objects_view(old(index).internal_object_store@),
            prefix@,
            class_docs@,
        ).0,
        match class_step(objects_view(old(index).internal_object_store@), prefix@, class_docs@).1 {
            None => r is Ok,
            Some(k) => r matches Err(IndexError::DuplicateKey(x)) && x@ == k,
        },
{
    let ghost old_index = *index;
    let ghost old_objects = objects_view(index.internal_object_store@);
    let full_prefix = qualify(&prefix, &class_docs.name);
    let ghost methods = class_docs@.methods.map_values(
        |f: FunctionDocumentationView| function_entry(qualified(prefix@, class_docs@.name), f),
    );
    let ghost class_entry = (
        qualified(prefix@, class_docs@.name),
        ObjectDocumentationView::Class(class_docs@),
    );
    assert(class_entries(prefix@, class_docs@) == methods + seq![class_entry]);
    proof {
        lemma_add_fresh_append(old_objects, methods, seq![class_entry]);
        lemma_add_fresh_keeps(old_objects, methods);
    }
    if index.internal_object_store.contains_key(&full_prefix) {
        proof {
            assert(old_objects.contains_key(class_entry.0));
            if let Some(m2) = add_fresh(old_objects, methods) {
                assert(m2.contains_key(class_entry.0));
                assert(add_fresh(m2, seq![class_entry]) is None);
            }
        }
        return Err(IndexError::DuplicateKey(full_prefix));
    }
    let mut i: usize = 0;
    while i < class_docs.methods.len()
        invariant
            i <= class_docs.methods@.len(),
            full_prefix@ == qualified(prefix@, class_docs@.name),
            !old(index).internal_object_store@.contains_key(full_prefix@),
            methods == class_docs@.methods.map_values(
                |f: FunctionDocumentationView| function_entry(full_prefix@, f),
            ),
            old_index == *old(index),
            class_entries(prefix@, class_docs@) == methods + seq![class_entry],
            same_but_internal(old_index, *index),
            keeps_objects(old_index, *index),
            old_objects == objects_view(old_index.internal_object_store@),
            add_fresh(old_objects, methods.take(i as int)) == Some(
                objects_view(index.internal_object_store@),
            ),
        decreases class_docs.methods@.len() - i,
    {
        let ghost before = *index;
        assert(methods.take(i + 1) == methods.take(i as int) + seq![methods[i as int]]);
        assert(methods[i as int] == function_entry(full_prefix@, class_docs.methods@[i as int]@));
        proof {
            lemma_add_fresh_append(old_objects, methods.take(i as int), seq![methods[i as int]]);
        }
        match index_functions(index, &class_docs.methods[i], full_prefix.clone()) {
            Ok(()) => {},
            Err(e) => {
                proof {
                    lemma_add_fresh_append(old_objects, methods.take(i + 1), methods.skip(i + 1));
                    assert(methods.take(i + 1) + methods.skip(i + 1) == methods);
                    assert(add_fresh(objects_view(before.internal_object_store@), seq![methods[i as int]]) is None);
                    lemma_add_fresh_append(old_objects, methods, seq![class_entry]);
                }
                assert(index.internal_object_store@ == before.internal_object_store@);
                assert(same_but_internal(old_index, *index));
                assert(keeps_objects(old_index, *index));
                proof {
                    lemma_fresh_until_clash_after(old_objects, methods.take(i as int), methods.skip(i as int));
                    assert(methods.take(i as int) + methods.skip(i as int) == methods);
                    assert(methods.skip(i as int)[0] == methods[i as int]);
                    assert(methods == method_entries(prefix@, class_docs@));
                    let ghost cur = objects_view(before.internal_object_store@);
                    let ghost one = seq![methods[i as int]];
                    assert(one[0] == methods[i as int]);
                    assert(one.drop_first() == Seq::<(Seq<char>, ObjectDocumentationView)>::empty());
                    assert(add_fresh(cur, one) is None);
                    assert(add_fresh(cur.insert(one[0].0, one[0].1), one.drop_first()) is Some);
                    assert(cur.contains_key(methods[i as int].0));
                    assert(fresh_until_clash(cur, methods.skip(i as int)) == (
                        cur,
                        Some(methods[i as int].0),
                    ));
                    assert(!old_objects.contains_key(full_prefix@));
                    assert(e matches IndexError::DuplicateKey(x) && x@ == methods[i as int].0);
                }
                return Err(e);
            },
        }
        assert forall|k: Seq<char>| #[trigger]
            old_index.internal_object_store@.contains_key(k) implies index.internal_object_store@.contains_key(k)
            && index.internal_object_store@[k]@ == old_index.internal_object_store@[k]@ by {
            assert(before.internal_object_store@.contains_key(k));
            assert(objects_view(before.internal_object_store@).contains_key(k));
            lemma_add_fresh_keeps(objects_view(before.internal_object_store@), seq![methods[i as int]]);
            assert(objects_view(index.internal_object_store@).contains_key(k));
        }
        i += 1;
    }
    assert(methods.take(methods.len() as int) == methods);
    proof {
        lemma_fresh_until_clash_after(old_objects, methods, Seq::empty());
        assert(methods == method_entries(prefix@, class_docs@));
    }
    assert forall|j: int| 0 <= j < methods.len() implies methods[j].0 != full_prefix@ by {
        assert(methods[j].0.len() > full_prefix@.len());
    }
    assert(!old_objects.contains_key(full_prefix@));
    let ghost cur = objects_view(index.internal_object_store@);
    assert(!cur.contains_key(full_prefix@));
    index.internal_object_store.insert(full_prefix, ObjectDocumentation::Class(class_docs.clone()));
    let ghost es = seq![class_entry];
    assert(es.drop_first() == Seq::<(Seq<char>, ObjectDocumentationView)>::empty());
    assert(add_fresh(cur.insert(es[0].0, es[0].1), es.drop_first()) == Some(
        cur.insert(es[0].0, es[0].1),
    ));
    assert(objects_view(index.internal_object_store@) =~= cur.insert(es[0].0, es[0].1));
    Ok(())
}


/// The entries of the included classes of a module, in order.
pub open spec fn classes_entries(
    prefix: Seq<char>,
    cs: Seq<ClassDocumentationView>,
    skip_private: bool,
    skip_undoc: bool,
) -> Seq<(Seq<char>, ObjectDocumentationView)>
    decreases cs.len(),
{
    if cs.len() == 0 {
        Seq::empty()
    } else {
        classes_entries(prefix, cs.drop_last(), skip_private, skip_undoc) + if includes_class(
            cs.last(),
            skip_private,
            skip_undoc,
        ) {
            class_entries(prefix, cs.last())
        } else {
            Seq::empty()
        }
    }
}

/// The entries of the included functions of a module, in order.
pub open spec fn functions_entries(
    prefix: Seq<char>,
    fs: Seq<FunctionDocumentationView>,
    skip_private: bool,
    skip_undoc: bool,
) -> Seq<(Seq<char>, ObjectDocumentationView)>
    decreases fs.len(),
{
    if fs.len() == 0 {
        Seq::empty()
    } else {
        functions_entries(prefix, fs.drop_last(), skip_private, skip_undoc) + if includes_function(
            fs.last(),
            skip_private,
            skip_undoc,
        ) {
            seq![function_entry(prefix, fs.last())]
        } else {
            Seq::empty()
        }
    }
}

proof fn lemma_classes_entries_append(
    prefix: Seq<char>,
    a: Seq<ClassDocumentationView>,
    b: Seq<ClassDocumentationView>,
    skip_private: bool,
    skip_undoc: bool,
)
    ensures
        classes_entries(prefix, a + b, skip_private, skip_undoc) == classes_entries(
            prefix,
            a,
            skip_private,
            skip_undoc,
        ) + classes_entries(prefix, b, skip_private, skip_undoc),
    decreases b.len(),
{
    if b.len() == 0 {
        assert(a + b == a);
    } else {
        assert((a + b).drop_last() == a + b.drop_last());
        lemma_classes_entries_append(prefix, a, b.drop_last(), skip_private, skip_undoc);
    }
}

proof fn lemma_functions_entries_append(
    prefix: Seq<char>,
    a: Seq<FunctionDocumentationView>,
    b: Seq<FunctionDocumentationView>,
    skip_private: bool,
    skip_undoc: bool,
)
    ensures
        functions_entries(prefix, a + b, skip_private, skip_undoc) == functions_entries(
            prefix,
            a,
            skip_private,
            skip_undoc,
        ) + functions_entries(prefix, b, skip_private, skip_undoc),
    decreases b.len(),
{
    if b.len() == 0 {
        assert(a + b == a);
    } else {
        assert((a + b).drop_last() == a + b.drop_last());
        lemma_functions_entries_append(prefix, a, b.drop_last(), skip_private, skip_undoc);
    }
}

/// The entries that indexing a module adds after the module itself: its included classes
/// with their methods, then its included functions.
pub open spec fn module_entries(
    prefix: Seq<char>,
    m: ModuleDocumentationView,
    skip_private: bool,
    skip_undoc: bool,
) -> Seq<(Seq<char>, ObjectDocumentationView)> {
    classes_entries(prefix, m.classes, skip_private, skip_undoc) + functions_entries(
        prefix,
        m.functions,
        skip_private,
        skip_undoc,
    )
}

/// The method entries of a class inside `prefix`.
pub open spec fn method_entries(prefix: Seq<char>, c: ClassDocumentationView) -> Seq<
    (Seq<char>, ObjectDocumentationView),
> {
    c.methods.map_values(|f: FunctionDocumentationView| function_entry(qualified(prefix, c.name), f))
}

/// Indexing a class inside `prefix`, step by step: its own name is checked first; then its
/// methods are added until one clashes; the class itself is stored last. The objects at the
/// end, and the name that clashed, if any.
pub open spec fn class_step(
    m: Map<Seq<char>, ObjectDocumentationView>,
    prefix: Seq<char>,
    c: ClassDocumentationView,
) -> (Map<Seq<char>, ObjectDocumentationView>, Option<Seq<char>>) {
    let key = qualified(prefix, c.name);
    if m.contains_key(key) {
        (m, Some(key))
    } else {
        let (m2, clash) = fresh_until_clash(m, method_entries(prefix, c));
        if clash is Some {
            (m2, clash)
        } else {
            (m2.insert(key, ObjectDocumentationView::Class(c)), None)
        }
    }
}

/// Indexing the included classes in order, stopping at the first clash.
pub open spec fn classes_step(
    m: Map<Seq<char>, ObjectDocumentationView>,
    prefix: Seq<char>,
    cs: Seq<ClassDocumentationView>,
    skip_private: bool,
    skip_undoc: bool,
) -> (Map<Seq<char>, ObjectDocumentationView>, Option<Seq<char>>)
    decreases cs.len(),
{
    if cs.len() == 0 {
        (m, None)
    } else {
        let (m2, clash) = classes_step(m, prefix, cs.drop_last(), skip_private, skip_undoc);
        if clash is Some || !includes_class(cs.last(), skip_private, skip_undoc) {
            (m2, clash)
        } else {
            class_step(m2, prefix, cs.last())
        }
    }
}

/// Once indexing the classes stopped at a clash, more classes change nothing.
proof fn lemma_classes_step_stops(
    m: Map<Seq<char>, ObjectDocumentationView>,
    prefix: Seq<char>,
    a: Seq<ClassDocumentationView>,
    b: Seq<ClassDocumentationView>,
    skip_private: bool,
    skip_undoc: bool,
)
    ensures
        classes_step(m, prefix, a, skip_private, skip_undoc).1 is Some ==> classes_step(
            m,
            prefix,
            a + b,
            skip_private,
            skip_undoc,
        ) == classes_step(m, prefix, a, skip_private, skip_undoc),
    decreases b.len(),
{
    if b.len() == 0 {
        assert(a + b == a);
    } else {
        assert((a + b).drop_last() == a + b.drop_last());
        lemma_classes_step_stops(m, prefix, a, b.drop_last(), skip_private, skip_undoc);
    }
}

/// Indexing module `m` under `path` step by step: the objects at the end, and the name that
/// clashed, if any. The module itself is stored first; then its included classes, then its
/// included functions; the first clash stops it, and what was stored before stays.
pub open spec fn module_step(
    objects: Map<Seq<char>, ObjectDocumentationView>,
    path: Seq<char>,
    m: ModuleDocumentationView,
    skip_private: bool,
    skip_undoc: bool,
) -> (Map<Seq<char>, ObjectDocumentationView>, Option<Seq<char>>) {
    if !includes_module(m, skip_undoc) {
        (objects, None)
    } else {
        let (m2, clash) = classes_step(
            objects.insert(path, ObjectDocumentationView::Module(m)),
            path,
            m.classes,
            skip_private,
            skip_undoc,
        );
        if clash is Some {
            (m2, clash)
        } else {
            fresh_until_clash(m2, functions_entries(path, m.functions, skip_private, skip_undoc))
        }
    }
}

/// The objects after indexing module `m` under `path`: nothing changes when the module is
/// not included; otherwise the module is stored under `path` (replacing what was there),
/// and its classes, methods and functions are added, failing on a name already present.
pub open spec fn indexed_module(
    objects: Map<Seq<char>, ObjectDocumentationView>,
    path: Seq<char>,
    m: ModuleDocumentationView,
    skip_private: bool,
    skip_undoc: bool,
) -> Option<Map<Seq<char>, ObjectDocumentationView>> {
    if !includes_module(m, skip_undoc) {
        Some(objects)
    } else {
        add_fresh(
            objects.insert(path, ObjectDocumentationView::Module(m)),
            module_entries(path, m, skip_private, skip_undoc),
        )
    }
}

impl RawIndex {
    /// Indexes the documentation of a module under its import path.
    pub fn index_module(&mut self, module_import_path: String, mod_docs: &ModuleDocumentation) -> (r:
        Result<(), IndexError>)
        ensures
            same_but_internal(*old(self), *final(self)),
            match indexed_module(
                objects_view(old(self).internal_object_store@),
                module_import_path@,
                mod_docs@,
                old(self).skip_private,
                old(self).skip_undoc,
            ) {
                Some(m) => r is Ok && objects_view(final(self).internal_object_store@) == m,
                None => r matches Err(IndexError::DuplicateKey(_)),
            },
            objects_view(final(self).internal_object_store@) == module_step(
                objects_view(old(self).internal_object_store@),
                module_import_path@,
                mod_docs@,
                old(self).skip_private,
                old(self).skip_undoc,
            ).0,
            match module_step(
                objects_view(old(self).internal_object_store@),
                module_import_path@,
                mod_docs@,
                old(self).skip_private,
                old(self).skip_undoc,
            ).1 {
                None => r is Ok,
                Some(k) => r matches Err(IndexError::DuplicateKey(x)) && x@ == k,
            },
    {
        if !should_include_module(mod_docs, self.skip_undoc) {
            return Ok(());
        }
        let ghost path = module_import_path@;
        let ghost sp = self.skip_private;
        let ghost su = self.skip_undoc;
        let ghost old_self = *self;
        self.internal_object_store.insert(
            module_import_path.clone(),
            ObjectDocumentation::Module(mod_docs.clone()),
        );
        let ghost m1 = objects_view(self.internal_object_store@);
        assert(m1 =~= objects_view(old_self.internal_object_store@).insert(
            path,
            ObjectDocumentationView::Module(mod_docs@),
        ));
        let ghost cs = mod_docs@.classes;
        let ghost fs = mod_docs@.functions;
        let ghost all = module_entries(path, mod_docs@, sp, su);
        assert(indexed_module(objects_view(old_self.internal_object_store@), path, mod_docs@, sp, su)
            == add_fresh(m1, all));
        proof {
            lemma_add_fresh_append(m1, classes_entries(path, cs, sp, su), functions_entries(path, fs, sp, su));
        }
        let mut i: usize = 0;
        while i < mod_docs.classes.len()
            invariant
                i <= mod_docs.classes@.len(),
                cs == mod_docs@.classes,
                module_import_path@ == path,
                sp == self.skip_private,
                su == self.skip_undoc,
                same_but_internal(old_self, *self),
                old_self == *old(self),
                m1 == objects_view(old_self.internal_object_store@).insert(
                    path,
                    ObjectDocumentationView::Module(mod_docs@),
                ),
                all == classes_entries(path, cs, sp, su) + functions_entries(path, fs, sp, su),
                indexed_module(objects_view(old_self.internal_object_store@), path, mod_docs@, sp, su)
                    == add_fresh(m1, all),
                add_fresh(m1, all) == match add_fresh(m1, classes_entries(path, cs, sp, su)) {
                    Some(m2) => add_fresh(m2, functions_entries(path, fs, sp, su)),
                    None => None,
                },
                add_fresh(m1, classes_entries(path, cs.take(i as int), sp, su)) == Some(
                    objects_view(self.internal_object_store@),
                ),
                classes_step(m1, path, cs.take(i as int), sp, su) == (
                    objects_view(self.internal_object_store@),
                    None::<Seq<char>>,
                ),
            decreases mod_docs.classes@.len() - i,
        {
            let ghost cur = objects_view(self.internal_object_store@);
            assert(cs.take(i + 1).drop_last() == cs.take(i as int));
            assert(cs.take(i + 1).last() == mod_docs.classes@[i as int]@);
            let ghost step = classes_entries(path, cs.take(i + 1), sp, su);
            proof {
                lemma_add_fresh_append(
                    m1,
                    classes_entries(path, cs.take(i as int), sp, su),
                    if includes_class(cs[i as int], sp, su) {
                        class_entries(path, cs[i as int])
                    } else {
                        Seq::empty()
                    },
                );
                lemma_classes_entries_append(path, cs.take(i + 1), cs.skip(i + 1), sp, su);
                assert(cs.take(i + 1) + cs.skip(i + 1) == cs);
                lemma_add_fresh_append(m1, step, classes_entries(path, cs.skip(i + 1), sp, su));
            }
            if should_include_class(&mod_docs.classes[i], self.skip_private, self.skip_undoc) {
                match index_class(self, &mod_docs.classes[i], module_import_path.clone()) {
                    Ok(()) => {},
                    Err(e) => {
                        assert(add_fresh(m1, step) is None);
                        assert(add_fresh(m1, classes_entries(path, cs, sp, su)) is None);
                        proof {
                            lemma_classes_step_stops(m1, path, cs.take(i + 1), cs.skip(i + 1), sp, su);
                        }
                        return Err(e);
                    },
                }
            } else {
                assert(add_fresh(cur, Seq::<(Seq<char>, ObjectDocumentationView)>::empty()) == Some(cur));
            }
            i += 1;
        }
        assert(cs.take(cs.len() as int) == cs);
        let mut k: usize = 0;
        while k < mod_docs.functions.len()
            invariant
                k <= mod_docs.functions@.len(),
                fs == mod_docs@.functions,
                module_import_path@ == path,
                sp == self.skip_private,
                su == self.skip_undoc,
                same_but_internal(old_self, *self),
                old_self == *old(self),
                all == classes_entries(path, cs, sp, su) + functions_entries(path, fs, sp, su),
                indexed_module(objects_view(old_self.internal_object_store@), path, mod_docs@, sp, su)
                    == add_fresh(m1, all),
                add_fresh(m1, all) == match add_fresh(m1, classes_entries(path, cs, sp, su)) {
                    Some(m2) => add_fresh(m2, functions_entries(path, fs, sp, su)),
                    None => None,
                },
                add_fresh(m1, classes_entries(path, cs, sp, su)) matches Some(m2) && add_fresh(
                    m2,
                    functions_entries(path, fs.take(k as int), sp, su),
                ) == Some(objects_view(self.internal_object_store@)),
                includes_module(mod_docs@, su),
                cs == mod_docs@.classes,
                m1 == objects_view(old_self.internal_object_store@).insert(
                    path,
                    ObjectDocumentationView::Module(mod_docs@),
                ),
                classes_step(m1, path, cs, sp, su).1 is None,
                classes_step(m1, path, cs, sp, su).0 == add_fresh(
                    m1,
                    classes_entries(path, cs, sp, su),
                )->0,
            decreases mod_docs.functions@.len() - k,
        {
            let ghost m2 = add_fresh(m1, classes_entries(path, cs, sp, su))->0;
            let ghost cur = objects_view(self.internal_object_store@);
            assert(fs.take(k + 1).drop_last() == fs.take(k as int));
            assert(fs.take(k + 1).last() == mod_docs.functions@[k as int]@);
            let ghost step = functions_entries(path, fs.take(k + 1), sp, su);
            proof {
                lemma_add_fresh_append(
                    m2,
                    functions_entries(path, fs.take(k as int), sp, su),
                    if includes_function(fs[k as int], sp, su) {
                        seq![function_entry(path, fs[k as int])]
                    } else {
                        Seq::empty()
                    },
                );
                lemma_functions_entries_append(path, fs.take(k + 1), fs.skip(k + 1), sp, su);
                assert(fs.take(k + 1) + fs.skip(k + 1) == fs);
                lemma_add_fresh_append(m2, step, functions_entries(path, fs.skip(k + 1), sp, su));
            }
            if should_include_function(&mod_docs.functions[k], self.skip_private, self.skip_undoc) {
                match index_functions(self, &mod_docs.functions[k], module_import_path.clone()) {
                    Ok(()) => {},
                    Err(e) => {
                        assert(add_fresh(m2, step) is None);
                        assert(add_fresh(m2, functions_entries(path, fs, sp, su)) is None);
                        proof {
                            let entry = function_entry(path, fs[k as int]);
                            let one = seq![entry];
                            assert(one[0] == entry);
                            assert(one.drop_first() == Seq::<(Seq<char>, ObjectDocumentationView)>::empty());
                            assert(add_fresh(cur.insert(one[0].0, one[0].1), one.drop_first()) is Some);
                            assert(cur.contains_key(entry.0));
                            lemma_functions_entries_append(path, fs.take(k as int), fs.skip(k as int), sp, su);
                            assert(fs.take(k as int) + fs.skip(k as int) == fs);
                            assert(fs.skip(k as int) == seq![fs[k as int]] + fs.skip(k + 1));
                            lemma_functions_entries_append(path, seq![fs[k as int]], fs.skip(k + 1), sp, su);
                            assert(seq![fs[k as int]].drop_last() == Seq::<FunctionDocumentationView>::empty());
                            assert(functions_entries(path, seq![fs[k as int]], sp, su) == one);
                            let rest = functions_entries(path, fs.skip(k as int), sp, su);
                            assert(rest == one + functions_entries(path, fs.skip(k + 1), sp, su));
                            assert(rest.len() > 0 && rest[0] == entry);
                            assert(fresh_until_clash(cur, rest) == (cur, Some(entry.0)));
                            lemma_fresh_until_clash_after(
                                m2,
                                functions_entries(path, fs.take(k as int), sp, su),
                                rest,
                            );
                            assert(fresh_until_clash(m2, functions_entries(path, fs, sp, su)) == (
                                cur,
                                Some(entry.0),
                            ));
                            assert(objects_view(self.internal_object_store@) == cur);
                            let cstep = classes_step(m1, path, cs, sp, su);
                            assert(cstep.1 is None);
                            assert(cstep.0 == m2);
                            assert(module_step(
                                objects_view(old_self.internal_object_store@),
                                path,
                                mod_docs@,
                                sp,
                                su,
                            ) == fresh_until_clash(m2, functions_entries(path, fs, sp, su)));
                            assert(e matches IndexError::DuplicateKey(x) && x@ == entry.0);
                        }
                        return Err(e);
                    },
                }
            } else {
                assert(add_fresh(cur, Seq::<(Seq<char>, ObjectDocumentationView)>::empty()) == Some(cur));
            }
            k += 1;
        }
        assert(fs.take(fs.len() as int) == fs);
        proof {
            let m2 = add_fresh(m1, classes_entries(path, cs, sp, su))->0;
            lemma_fresh_until_clash_after(
                m2,
                functions_entries(path, fs, sp, su),
                Seq::<(Seq<char>, ObjectDocumentationView)>::empty(),
            );
        }
        Ok(())
    }
}


/// The Levenshtein distance: the fewest single-character insertions, deletions and
/// substitutions that turn `a` into `b`.
pub open spec fn levenshtein(a: Seq<char>, b: Seq<char>) -> nat
    decreases a.len() + b.len(),
{
    if a.len() == 0 {
        b.len()
    } else if b.len() == 0 {
        a.len()
    } else {
        let delete = levenshtein(a.drop_last(), b) + 1;
        let insert = levenshtein(a, b.drop_last()) + 1;
        let substitute = levenshtein(a.drop_last(), b.drop_last()) + if a.last() == b.last() {
            0nat
        } else {
            1nat
        };
        if delete <= insert && delete <= substitute {
            delete
        } else if insert <= substitute {
            insert
        } else {
            substitute
        }
    }
}

/// The edit distance of two strings, from `edit_distance::edit_distance`, which computes
/// the Levenshtein distance over their characters.
#[verifier::external_body]
fn edit_distance_between(a: &str, b: &str) -> (d: usize)
    ensures
        d == levenshtein(a@, b@),
{
    edit_distance::edit_distance(a, b)
}

pub open spec fn abs_diff(a: nat, b: nat) -> nat {
    if a >= b {
        (a - b) as nat
    } else {
        (b - a) as nat
    }
}

/// `k` is close enough to `unknown` to be suggested: its length differs by less than
/// `max_length_distance`, and its edit distance is below `max_edit_distance`.
pub open spec fn is_candidate(
    unknown: Seq<char>,
    k: Seq<char>,
    max_length_distance: nat,
    max_edit_distance: nat,
) -> bool {
    &&& abs_diff(k.len(), unknown.len()) < max_length_distance
    &&& levenshtein(k, unknown) < max_edit_distance
}

/// Among the candidates, the first one of least edit distance, with that distance.
pub open spec fn best_alternative(
    unknown: Seq<char>,
    alternatives: Seq<Seq<char>>,
    max_length_distance: nat,
    max_edit_distance: nat,
) -> Option<(Seq<char>, nat)>
    decreases alternatives.len(),
{
    if alternatives.len() == 0 {
        None
    } else {
        let prev = best_alternative(
            unknown,
            alternatives.drop_last(),
            max_length_distance,
            max_edit_distance,
        );
        let k = alternatives.last();
        if is_candidate(unknown, k, max_length_distance, max_edit_distance) {
            match prev {
                Some((pk, ps)) => if levenshtein(k, unknown) < ps {
                    Some((k, levenshtein(k, unknown)))
                } else {
                    prev
                },
                None => Some((k, levenshtein(k, unknown))),
            }
        } else {
            prev
        }
    }
}

pub open spec fn strings_of(v: Seq<String>) -> Seq<Seq<char>> {
    v.map_values(|s: String| s@)
}

/// Suggests the known name closest to an unknown one: among the alternatives whose length
/// and edit distance are close enough, the first of least edit distance.
pub fn suggest_known_alternative(
    unknown_reference: &str,
    alternatives: Vec<String>,
    max_length_distance: usize,
    max_edit_distance: usize,
) -> (r: Option<(String, usize)>)
    ensures
        match best_alternative(
            unknown_reference@,
            strings_of(alternatives@),
            max_length_distance as nat,
            max_edit_distance as nat,
        ) {
            Some((k, d)) => r matches Some((s, n)) && s@ == k && n == d,
            None => r is None,
        },
{
    let candidate_length = unknown_reference.unicode_len();
    let ghost alts = strings_of(alternatives@);
    let mut best: Option<(String, usize)> = None;
    let mut i: usize = 0;
    while i < alternatives.len()
        invariant
            i <= alternatives@.len(),
            alts == strings_of(alternatives@),
            candidate_length == unknown_reference@.len(),
            match best_alternative(
                unknown_reference@,
                alts.take(i as int),
                max_length_distance as nat,
                max_edit_distance as nat,
            ) {
                Some((k, d)) => best matches Some((s, n)) && s@ == k && n == d,
                None => best is None,
            },
        decreases alternatives@.len() - i,
    {
        assert(alts.take(i + 1).drop_last() == alts.take(i as int));
        assert(alts.take(i + 1).last() == alternatives@[i as int]@);
        let k = &alternatives[i];
        let k_length = k.as_str().unicode_len();
        let diff = if k_length >= candidate_length {
            k_length - candidate_length
        } else {
            candidate_length - k_length
        };
        if diff < max_length_distance {
            let score = edit_distance_between(k.as_str(), unknown_reference);
            if score < max_edit_distance {
                let better = match &best {
                    Some((_, best_score)) => score < *best_score,
                    None => true,
                };
                if better {
                    best = Some((k.clone(), score));
                }
            }
        }
        i += 1;
    }
    assert(alts.take(alternatives@.len() as int) == alts);
    best
}

/// The closest alternative is a candidate, and no candidate is closer.
pub proof fn law_suggestion_is_closest(
    unknown: Seq<char>,
    alternatives: Seq<Seq<char>>,
    max_length_distance: nat,
    max_edit_distance: nat,
)
    ensures
        match best_alternative(unknown, alternatives, max_length_distance, max_edit_distance) {
            Some((k, d)) => {
                &&& alternatives.contains(k)
                &&& is_candidate(unknown, k, max_length_distance, max_edit_distance)
                &&& d == levenshtein(k, unknown)
                &&& forall|j: int|
                    0 <= j < alternatives.len() && is_candidate(
                        unknown,
                        #[trigger] alternatives[j],
                        max_length_distance,
                        max_edit_distance,
                    ) ==> d <= levenshtein(alternatives[j], unknown)
            },
            None => forall|j: int|
                0 <= j < alternatives.len() ==> !is_candidate(
                    unknown,
                    #[trigger] alternatives[j],
                    max_length_distance,
                    max_edit_distance,
                ),
        },
    decreases alternatives.len(),
{
    if alternatives.len() > 0 {
        let rest = alternatives.drop_last();
        let last = alternatives.len() - 1;
        law_suggestion_is_closest(unknown, rest, max_length_distance, max_edit_distance);
        assert forall|j: int| 0 <= j < rest.len() implies #[trigger] rest[j] == alternatives[j] by {}
        if let Some((k, d)) = best_alternative(unknown, rest, max_length_distance, max_edit_distance) {
            let i = choose|i: int| 0 <= i < rest.len() && rest[i] == k;
            assert(alternatives[i] == k);
        }
        assert(alternatives[last] == alternatives.last());
        match best_alternative(unknown, alternatives, max_length_distance, max_edit_distance) {
            Some((k, d)) => {
                assert forall|j: int|
                    0 <= j < alternatives.len() && is_candidate(
                        unknown,
                        #[trigger] alternatives[j],
                        max_length_distance,
                        max_edit_distance,
                    ) implies d <= levenshtein(alternatives[j], unknown) by {
                    if j < last {
                        assert(rest[j] == alternatives[j]);
                    }
                }
            },
            None => {
                assert forall|j: int| 0 <= j < alternatives.len() implies !is_candidate(
                    unknown,
                    #[trigger] alternatives[j],
                    max_length_distance,
                    max_edit_distance,
                ) by {
                    if j < last {
                        assert(rest[j] == alternatives[j]);
                    }
                }
            },
        }
    }
}


/// The components of a relative module path with its extension removed, as
/// `Path::with_extension("")` and `Path::components` give them.
pub uninterp spec fn module_path_components(path: Seq<char>) -> Seq<Seq<char>>;

/// The components of `path` without its extension, each as a string (the parts of a `&str`
/// always are valid strings).
#[verifier::external_body]
fn path_components(path: &str) -> (r: Vec<String>)
    ensures
        strings_of(r@) == module_path_components(path@),
{
    std::path::Path::new(path).with_extension("").components().map(
        |c| c.as_os_str().to_string_lossy().into_owned(),
    ).collect()
}

/// The file stem of a path, as `Path::file_stem` gives it.
pub uninterp spec fn path_file_stem(path: Seq<char>) -> Option<Seq<char>>;

/// The file stem of `path`, from `Path::file_stem`.
#[verifier::external_body]
fn file_stem(path: &str) -> (r: Option<String>)
    ensures
        match path_file_stem(path@) {
            Some(s) => r matches Some(t) && t@ == s,
            None => r is None,
        },
{
    std::path::Path::new(path).file_stem().and_then(|s| s.to_str()).map(String::from)
}

/// `path` relative to `prefix`, as `Path::strip_prefix` gives it: `None` when `prefix` is
/// no leading run of the components of `path`.
pub uninterp spec fn path_relative_to(path: Seq<char>, prefix: Seq<char>) -> Option<Seq<char>>;

/// `path` relative to `prefix`, from `Path::strip_prefix`.
#[verifier::external_body]
fn strip_path_prefix(path: &str, prefix: &str) -> (r: Option<String>)
    ensures
        match path_relative_to(path@, prefix@) {
            Some(s) => r matches Some(t) && t@ == s,
            None => r is None,
        },
{
    std::path::Path::new(path).strip_prefix(prefix).ok().map(
        |p| p.to_string_lossy().into_owned(),
    )
}

/// `base` joined with `path`, as `Path::join` gives it.
pub uninterp spec fn joined_path(base: Seq<char>, path: Seq<char>) -> Seq<char>;

/// `base` joined with `path`, from `Path::join`; both are valid strings, and so is the result.
#[verifier::external_body]
fn join_path(base: &str, path: &str) -> (r: String)
    ensures
        r@ == joined_path(base@, path@),
{
    std::path::Path::new(base).join(path).to_string_lossy().into_owned()
}

/// The parts joined by dots.
pub open spec fn dotted(parts: Seq<Seq<char>>) -> Seq<char>
    decreases parts.len(),
{
    if parts.len() == 0 {
        Seq::empty()
    } else if parts.len() == 1 {
        parts[0]
    } else {
        dotted(parts.drop_last()) + seq!['.'] + parts.last()
    }
}

/// The import path of a module file: the package name, then the components of the file's
/// path inside the package without its extension, joined by dots.
pub open spec fn import_path(pkg_name: Seq<char>, relative_module_file_path: Seq<char>) -> Seq<char> {
    dotted(seq![pkg_name] + module_path_components(relative_module_file_path))
}

/// The path in `from a.b.c import d`: `a.b.c`; this never fails.
pub fn get_from_import_path(pkg_name: String, relative_module_file_path: &str) -> (r: Result<
    String,
    IndexError,
>)
    ensures
        r matches Ok(p) && p@ == import_path(pkg_name@, relative_module_file_path@),
{
    let components = path_components(relative_module_file_path);
    let ghost parts = seq![pkg_name@] + strings_of(components@);
    let mut res = pkg_name;
    let mut i: usize = 0;
    proof {
        reveal_strlit(".");
    }
    assert(parts.take(1) == seq![parts[0]]);
    while i < components.len()
        invariant
            i <= components@.len(),
            parts == seq![parts[0]] + strings_of(components@),
            res@ == dotted(parts.take(i + 1)),
            "."@ == seq!['.'],
        decreases components@.len() - i,
    {
        assert(parts.take(i + 2).drop_last() == parts.take(i + 1));
        assert(parts.take(i + 2).last() == components@[i as int]@);
        res.append(".");
        res.append(components[i].as_str());
        i += 1;
    }
    assert(parts.take(components@.len() as int + 1) == parts);
    Ok(res)
}

pub open spec fn init_suffix() -> Seq<char> {
    seq!['.', '_', '_', 'i', 'n', 'i', 't', '_', '_']
}

/// `s` without a trailing `.__init__`, which names a package by its `__init__.py`.
pub open spec fn without_init_suffix(s: Seq<char>) -> Seq<char> {
    if s.len() >= 9 && s.skip(s.len() - 9) == init_suffix() {
        s.take(s.len() - 9)
    } else {
        s
    }
}

fn strip_init_suffix(s: &String) -> (r: String)
    ensures
        r@ == without_init_suffix(s@),
{
    let v = crate::indexing::content::chars_of(s.as_str());
    let n = v.len();
    if n >= 9 && v[n - 9] == '.' && v[n - 8] == '_' && v[n - 7] == '_' && v[n - 6] == 'i' && v[n
        - 5] == 'n' && v[n - 4] == 'i' && v[n - 3] == 't' && v[n - 2] == '_' && v[n - 1] == '_' {
        assert(s@.skip(n - 9) =~= init_suffix());
        String::from_str(s.as_str().substring_char(0, n - 9))
    } else {
        proof {
            if n >= 9 && s@.skip(n - 9) == init_suffix() {
                assert(s@[n - 9] == s@.skip(n - 9)[0]);
                assert(s@[n - 1] == s@.skip(n - 9)[8]);
                assert(s@[n - 2] == s@.skip(n - 9)[7]);
                assert(s@[n - 3] == s@.skip(n - 9)[6]);
                assert(s@[n - 4] == s@.skip(n - 9)[5]);
                assert(s@[n - 5] == s@.skip(n - 9)[4]);
                assert(s@[n - 6] == s@.skip(n - 9)[3]);
                assert(s@[n - 7] == s@.skip(n - 9)[2]);
                assert(s@[n - 8] == s@.skip(n - 9)[1]);
            }
        }
        s.clone()
    }
}

/// The key under which a module file is indexed: its import path, without `.__init__`.
pub open spec fn module_key(pkg_name: Seq<char>, relative_module_file_path: Seq<char>) -> Seq<char> {
    without_init_suffix(import_path(pkg_name, relative_module_file_path))
}


/// An entry of an inventory of external objects: a name and its location relative to the
/// base URL of its documentation.
pub struct InventoryEntry {
    pub name: String,
    /// The object's type, written `domain:role` (such as `py:function` or `std:label`).
    pub sphinx_type: String,
    pub location: String,
}

/// The mathematical value of an [`InventoryEntry`].
pub struct InventoryEntryView {
    pub name: Seq<char>,
    pub sphinx_type: Seq<char>,
    pub location: Seq<char>,
}

impl View for InventoryEntry {
    type V = InventoryEntryView;

    open spec fn view(&self) -> InventoryEntryView {
        InventoryEntryView {
            name: self.name@,
            sphinx_type: self.sphinx_type@,
            location: self.location@,
        }
    }
}

pub open spec fn python_domain() -> Seq<char> {
    seq!['p', 'y', ':']
}

/// An entry of an inventory is referable when it documents a Python object, that is, its
/// type lies in the `py` domain: docstrings name Python objects by their fully qualified
/// names, and other domains (labels, documents, C symbols) would shadow them.
pub open spec fn includes_reference(e: InventoryEntryView) -> bool {
    e.sphinx_type.len() >= 3 && e.sphinx_type.take(3) == python_domain()
}

/// Whether an inventory entry is kept; see [`includes_reference`].
pub fn should_include_reference(entry: &InventoryEntry) -> (b: bool)
    ensures
        b == includes_reference(entry@),
{
    let t = entry.sphinx_type.as_str();
    let b = t.unicode_len() >= 3 && t.get_char(0) == 'p' && t.get_char(1) == 'y' && t.get_char(2)
        == ':';
    proof {
        if b {
            assert(t@.take(3) =~= python_domain());
        } else if t@.len() >= 3 && t@.take(3) == python_domain() {
            assert(t@[0] == t@.take(3)[0]);
            assert(t@[1] == t@.take(3)[1]);
            assert(t@[2] == t@.take(3)[2]);
        }
    }
    b
}

pub open spec fn entry_view(e: Result<InventoryEntry, String>) -> Result<InventoryEntryView, Seq<char>> {
    match e {
        Ok(x) => Ok(x@),
        Err(m) => Err(m@),
    }
}

pub open spec fn entries_view(es: Seq<Result<InventoryEntry, String>>) -> Seq<
    Result<InventoryEntryView, Seq<char>>,
> {
    es.map_values(|e: Result<InventoryEntry, String>| entry_view(e))
}

pub open spec fn inventory_view(r: Result<Vec<Result<InventoryEntry, String>>, String>) -> Result<
    Seq<Result<InventoryEntryView, Seq<char>>>,
    Seq<char>,
> {
    match r {
        Ok(es) => Ok(entries_view(es@)),
        Err(m) => Err(m@),
    }
}

/// What the `sphinx_inv` reader makes of the bytes of an inventory file: the message of the
/// error in its header, or its entries in order, each with its type and its location expanded, up to
/// and including the first entry it could not read, given as that error's message.
pub uninterp spec fn inventory_entries(data: Seq<u8>) -> Result<
    Seq<Result<InventoryEntryView, Seq<char>>>,
    Seq<char>,
>;

/// Reads an inventory from its bytes with `SphinxInventoryReader::from_reader`, stopping at
/// the first entry that does not read.
#[verifier::external_body]
fn read_inventory(data: &[u8]) -> (r: Result<Vec<Result<InventoryEntry, String>>, String>)
    ensures
        inventory_view(r) == inventory_entries(data@),
{
    let reader = sphinx_inv::SphinxInventoryReader::from_reader(data).map_err(|e| e.to_string())?;
    let mut entries = Vec::new();
    for item in reader {
        let failed = item.is_err();
        entries.push(item.map(|r| InventoryEntry { location: r.expanded_location(), sphinx_type: r.sphinx_type.to_string(), name: r.name }).map_err(|e| e.to_string()));
        if failed {
            break;
        }
    }
    Ok(entries)
}

/// `s` parses as an absolute URL.
pub uninterp spec fn is_valid_url(s: Seq<char>) -> bool;

/// The URL of `location` relative to the URL `base`, if both parse.
pub uninterp spec fn resolved_url(base: Seq<char>, location: Seq<char>) -> Option<Seq<char>>;

/// Whether `s` parses as a URL, from `Url::parse`.
#[verifier::external_body]
fn url_parses(s: &str) -> (b: bool)
    ensures
        b == is_valid_url(s@),
{
    url::Url::parse(s).is_ok()
}

/// The text of the URL that `Url::join` makes of `location` against the parsed `base`;
/// `None` when either fails, which it does whenever `base` does not parse.
#[verifier::external_body]
fn resolve_url(base: &str, location: &str) -> (r: Option<String>)
    ensures
        match resolved_url(base@, location@) {
            Some(u) => r matches Some(s) && s@ == u,
            None => r is None,
        },
        !is_valid_url(base@) ==> r is None,
{
    match url::Url::parse(base) {
        Ok(b) => match b.join(location) {
            Ok(u) => Some(u.to_string()),
            Err(_) => None,
        },
        Err(_) => None,
    }
}

/// The URLs of a store of external objects, each by its text.
pub open spec fn urls_view(m: Map<Seq<char>, String>) -> Map<Seq<char>, Seq<char>> {
    m.map_values(|s: String| s@)
}

/// Why reading an inventory stopped early.
pub enum InventoryStop {
    /// An entry could not be read; the reader's message.
    Unreadable(Seq<char>),
    /// An entry's location does not resolve against the base URL.
    Unresolved(Seq<char>),
}

/// The external store after reading the entries of one inventory in order, and why reading
/// stopped, if it did: each referable entry's name is mapped to its resolved URL, other
/// entries are skipped, and the first unreadable entry or unresolvable location stops the
/// reading with what was stored before it.
pub open spec fn with_inventory(
    urls: Map<Seq<char>, Seq<char>>,
    base: Seq<char>,
    entries: Seq<Result<InventoryEntryView, Seq<char>>>,
) -> (Map<Seq<char>, Seq<char>>, Option<InventoryStop>)
    decreases entries.len(),
{
    if entries.len() == 0 {
        (urls, None)
    } else {
        let (m, stop) = with_inventory(urls, base, entries.drop_last());
        if stop is Some {
            (m, stop)
        } else {
            match entries.last() {
                Ok(e) => if !includes_reference(e) {
                    (m, None)
                } else {
                    match resolved_url(base, e.location) {
                        Some(u) => (m.insert(e.name, u), None),
                        None => (m, Some(InventoryStop::Unresolved(e.location))),
                    }
                },
                Err(message) => (m, Some(InventoryStop::Unreadable(message))),
            }
        }
    }
}

/// The message for an inventory whose file is missing.
pub open spec fn missing_inventory() -> Seq<char> {
    "the inventory file is missing"@
}

/// What reading an inventory of external objects at `base` does to `old`, giving `new` and
/// `r`: only the external store changes; an invalid base URL is refused with that URL and
/// an unreadable inventory with its message, both leaving the store as it was; else the
/// referable entries are stored in order as [`with_inventory`] says, and reading stops with
/// an error, keeping what was stored before,
/// at the first entry that is unreadable or does not resolve.
pub open spec fn adds_inventory(
    old: RawIndex,
    new: RawIndex,
    base: Seq<char>,
    entries: Result<Seq<Result<InventoryEntryView, Seq<char>>>, Seq<char>>,
    r: Result<(), IndexError>,
) -> bool {
    &&& new.internal_object_store == old.internal_object_store
    &&& new.notebook_store == old.notebook_store
    &&& new.pkg_name == old.pkg_name
    &&& new.skip_private == old.skip_private
    &&& new.skip_undoc == old.skip_undoc
    &&& new.pkg_root == old.pkg_root
    &&& !is_valid_url(base) ==> (r matches Err(IndexError::InvalidUrl(u)) && u@ == base
        && new.external_object_store@ == old.external_object_store@)
    &&& is_valid_url(base) ==> match entries {
        Err(message) => (r matches Err(IndexError::Inventory(m)) && m@ == message)
            && new.external_object_store@ == old.external_object_store@,
        Ok(es) => {
            let (m, stop) = with_inventory(urls_view(old.external_object_store@), base, es);
            &&& urls_view(new.external_object_store@) == m
            &&& match stop {
                None => r is Ok,
                Some(InventoryStop::Unreadable(message)) => r matches Err(
                    IndexError::Inventory(x),
                ) && x@ == message,
                Some(InventoryStop::Unresolved(location)) => r matches Err(
                    IndexError::InvalidUrl(x),
                ) && x@ == location,
            }
        },
    }
}

/// With undocumented objects skipped, a module without a docstring is skipped with
/// everything in it: indexing it leaves the objects as they were, whatever it defines.
pub proof fn law_undocumented_module_is_skipped(
    objects: Map<Seq<char>, ObjectDocumentationView>,
    path: Seq<char>,
    m: ModuleDocumentationView,
    skip_private: bool,
)
    requires
        m.docstring is None,
    ensures
        module_step(objects, path, m, skip_private, true) == (objects, None::<Seq<char>>),
        indexed_module(objects, path, m, skip_private, true) == Some(objects),
{
}

/// The same at the level of a source file: with undocumented objects skipped, indexing
/// source whose module has no docstring succeeds and stores nothing.
pub proof fn law_undocumented_source_stores_nothing(
    old: RawIndex,
    new: RawIndex,
    rel: Seq<char>,
    content: Seq<char>,
    r: Result<bool, IndexError>,
)
    requires
        indexes_source(old, new, rel, content, r),
        old.skip_undoc,
        python_parse(content) matches Ok(m) && extracted_module(
            m,
            old.skip_private,
            old.skip_undoc,
            content,
            joined_path(old.pkg_name@, rel),
        ).docstring is None,
    ensures
        r is Ok,
        objects_view(new.internal_object_store@) == objects_view(old.internal_object_store@),
{
    let m = python_parse(content)->Ok_0;
    let d = extracted_module(m, old.skip_private, old.skip_undoc, content, joined_path(old.pkg_name@, rel));
    law_undocumented_module_is_skipped(
        objects_view(old.internal_object_store@),
        module_key(old.pkg_name@, rel),
        d,
        old.skip_private,
    );
}

/// What indexing the Python source `content`, at `rel` inside the package, does to `old`,
/// giving `new` and `r`: source that does not parse is refused with the parser's message
/// and nothing changes; else the module documentation extracted from it is indexed under
/// the module's key, step by step as [`module_step`] says: the first name that is already
/// indexed stops it with that name, and what was stored before stays; `Ok` tells whether
/// the module assigns `__all__` more than once.
pub open spec fn indexes_source(
    old: RawIndex,
    new: RawIndex,
    rel: Seq<char>,
    content: Seq<char>,
    r: Result<bool, IndexError>,
) -> bool {
    &&& same_but_internal(old, new)
    &&& match python_parse(content) {
        Err(message) => (r matches Err(IndexError::PythonSyntax(e)) && e@ == message) && new
            == old,
        Ok(m) => {
            let d = extracted_module(
                m,
                old.skip_private,
                old.skip_undoc,
                content,
                joined_path(old.pkg_name@, rel),
            );
            let (objects, clash) = module_step(
                objects_view(old.internal_object_store@),
                module_key(old.pkg_name@, rel),
                d,
                old.skip_private,
                old.skip_undoc,
            );
            &&& objects_view(new.internal_object_store@) == objects
            &&& match clash {
                None => r == Ok::<bool, IndexError>(d.exports_redefined),
                Some(k) => r matches Err(IndexError::DuplicateKey(x)) && x@ == k,
            }
            &&& match indexed_module(
                objects_view(old.internal_object_store@),
                module_key(old.pkg_name@, rel),
                d,
                old.skip_private,
                old.skip_undoc,
            ) {
                Some(objects) => r == Ok::<bool, IndexError>(d.exports_redefined) && objects_view(
                    new.internal_object_store@,
                ) == objects,
                None => r matches Err(IndexError::DuplicateKey(_)),
            }
        },
    }
}

impl RawIndex {
    /// An empty index of the package at `pkg_root`, named by its file stem.
    pub fn new(pkg_root: String, skip_undoc: bool, skip_private: bool) -> (r: Result<
        Self,
        IndexError,
    >)
        ensures
            match path_file_stem(pkg_root@) {
                Some(name) => r matches Ok(index) && {
                    &&& index.pkg_name@ == name
                    &&& index.internal_object_store@ == Map::<
                        Seq<char>,
                        ObjectDocumentation,
                    >::empty()
                    &&& index.external_object_store@ == Map::<Seq<char>, String>::empty()
                    &&& index.notebook_store@ == Map::<
                        Seq<char>,
                        Vec<nbformat::v4::Cell>,
                    >::empty()
                    &&& index.skip_undoc == skip_undoc
                    &&& index.skip_private == skip_private
                    &&& index.pkg_root == pkg_root
                },
                None => r == Err::<RawIndex, IndexError>(IndexError::PackageName),
            },
    {
        match file_stem(pkg_root.as_str()) {
            Some(pkg_name) => Ok(
                RawIndex {
                    pkg_name,
                    internal_object_store: NameMap::new(),
                    external_object_store: NameMap::new(),
                    notebook_store: NameMap::new(),
                    pkg_root,
                    skip_undoc,
                    skip_private,
                },
            ),
            None => Err(IndexError::PackageName),
        }
    }

    /// Indexes a Python file, given by its path inside the package root and its contents:
    /// the module goes under its import path, then its classes, methods and functions.
    /// A file that does not parse is refused.
    pub fn index_source(&mut self, relative_module_file_path: &str, file_content: &str) -> (r:
        Result<bool, IndexError>)
        requires
            file_content.spec_bytes().len() <= u32::MAX,
        ensures
            indexes_source(*old(self), *final(self), relative_module_file_path@, file_content@, r),
    {
        let parsed = parse_python_str(file_content);
        let module_import_path = match get_from_import_path(
            self.pkg_name.clone(),
            relative_module_file_path,
        ) {
            Ok(p) => strip_init_suffix(&p),
            Err(e) => {
                return Err(e);
            },
        };
        match parsed {
            Ok(contents) => {
                let source_file = join_path(self.pkg_name.as_str(), relative_module_file_path);
                let mod_docs = extract_module_documentation(
                    &contents,
                    self.skip_private,
                    self.skip_undoc,
                    file_content,
                    source_file,
                );
                let redefined = mod_docs.exports_redefined;
                match self.index_module(module_import_path, &mod_docs) {
                    Ok(()) => Ok(redefined),
                    Err(e) => Err(e),
                }
            },
            Err(message) => Err(IndexError::PythonSyntax(message)),
        }
    }

    /// Indexes the Python file at `path`, whose contents are `file_content`: a file outside
    /// the package root is refused, else it is indexed as [`RawIndex::index_source`] does
    /// with its path inside the root.
    pub fn index_file(&mut self, path: &str, file_content: &str) -> (r: Result<bool, IndexError>)
        requires
            file_content.spec_bytes().len() <= u32::MAX,
        ensures
            match path_relative_to(path@, old(self).pkg_root@) {
                None => r == Err::<bool, IndexError>(IndexError::OutsidePackage) && *final(self)
                    == *old(self),
                Some(rel) => indexes_source(*old(self), *final(self), rel, file_content@, r),
            },
    {
        match strip_path_prefix(path, self.pkg_root.as_str()) {
            Some(rel) => self.index_source(rel.as_str(), file_content),
            None => Err(IndexError::OutsidePackage),
        }
    }

    /// Stores a notebook under the file stem of its path: a path without a file stem is
    /// refused first, then a notebook that could not be read. Tells whether a notebook of
    /// that name was replaced.
    pub fn index_notebook(&mut self, path: &str, cells: Result<Vec<nbformat::v4::Cell>, String>) -> (r:
        Result<bool, IndexError>)
        ensures
            match path_file_stem(path@) {
                None => r == Err::<bool, IndexError>(IndexError::NotebookName) && *final(self)
                    == *old(self),
                Some(name) => match cells {
                    Err(message) => r == Err::<bool, IndexError>(IndexError::Notebook(message))
                        && *final(self) == *old(self),
                    Ok(cs) => {
                        &&& r == Ok::<bool, IndexError>(
                            old(self).notebook_store@.contains_key(name),
                        )
                        &&& final(self).notebook_store@ == old(self).notebook_store@.insert(
                            name,
                            cs,
                        )
                        &&& final(self).internal_object_store == old(self).internal_object_store
                        &&& final(self).external_object_store == old(self).external_object_store
                        &&& final(self).pkg_name == old(self).pkg_name
                        &&& final(self).pkg_root == old(self).pkg_root
                        &&& final(self).skip_undoc == old(self).skip_undoc
                        &&& final(self).skip_private == old(self).skip_private
                    },
                },
            },
    {
        let notebook_name = match file_stem(path) {
            Some(n) => n,
            None => {
                return Err(IndexError::NotebookName);
            },
        };
        match cells {
            Ok(cs) => Ok(self.insert_notebook(notebook_name, cs)),
            Err(message) => Err(IndexError::Notebook(message)),
        }
    }

    /// Stores the cells of a notebook under its name, and tells whether a notebook of
    /// that name was replaced.
    pub fn insert_notebook(&mut self, notebook_name: String, cells: Vec<nbformat::v4::Cell>) -> (replaced: bool)
        ensures
            final(self).notebook_store@ == old(self).notebook_store@.insert(notebook_name@, cells),
            replaced == old(self).notebook_store@.contains_key(notebook_name@),
            final(self).internal_object_store == old(self).internal_object_store,
            final(self).external_object_store == old(self).external_object_store,
            final(self).pkg_name == old(self).pkg_name,
            final(self).pkg_root == old(self).pkg_root,
            final(self).skip_undoc == old(self).skip_undoc,
            final(self).skip_private == old(self).skip_private,
    {
        self.notebook_store.insert(notebook_name, cells).is_some()
    }

    /// Reads the entries of one inventory of external objects whose documentation lives at
    /// `base_url`: an invalid base URL is refused first, then an inventory that could not
    /// be read, then, in order, each entry that could not be read or whose location does
    /// not resolve; the entries before it stay stored.
    pub fn add_external_inventory(
        &mut self,
        base_url: &str,
        entries: Result<Vec<Result<InventoryEntry, String>>, String>,
    ) -> (r: Result<(), IndexError>)
        ensures
            adds_inventory(*old(self), *final(self), base_url@, inventory_view(entries), r),
    {
        if !url_parses(base_url) {
            return Err(IndexError::InvalidUrl(String::from_str(base_url)));
        }
        let list: &Vec<Result<InventoryEntry, String>> = match &entries {
            Ok(es) => es,
            Err(message) => {
                return Err(IndexError::Inventory(message.clone()));
            },
        };
        let ghost all = entries_view(list@);
        let ghost start = urls_view(self.external_object_store@);
        let mut i: usize = 0;
        while i < list.len()
            invariant
                i <= list@.len(),
                all == entries_view(list@),
                entries matches Ok(es) && entries_view(es@) == all,
                is_valid_url(base_url@),
                self.internal_object_store == old(self).internal_object_store,
                self.notebook_store == old(self).notebook_store,
                self.pkg_name == old(self).pkg_name,
                self.skip_private == old(self).skip_private,
                self.skip_undoc == old(self).skip_undoc,
                self.pkg_root == old(self).pkg_root,
                start == urls_view(old(self).external_object_store@),
                with_inventory(start, base_url@, all.take(i as int)) == (
                    urls_view(self.external_object_store@),
                    None::<InventoryStop>,
                ),
            decreases list@.len() - i,
        {
            assert(all.take(i + 1).drop_last() == all.take(i as int));
            assert(all.take(i + 1).last() == entry_view(list@[i as int]));
            proof {
                lemma_with_inventory_stops(start, base_url@, all.take(i + 1), all.skip(i + 1));
                assert(all.take(i + 1) + all.skip(i + 1) == all);
            }
            match &list[i] {
                Ok(e) => if should_include_reference(e) {
                    match resolve_url(base_url, e.location.as_str()) {
                        Some(url) => {
                            let ghost before = urls_view(self.external_object_store@);
                            self.external_object_store.insert(e.name.clone(), url);
                            assert(urls_view(self.external_object_store@) =~= before.insert(
                                e.name@,
                                resolved_url(base_url@, e.location@)->0,
                            ));
                        },
                        None => {
                            return Err(IndexError::InvalidUrl(e.location.clone()));
                        },
                    }
                },
                Err(message) => {
                    return Err(IndexError::Inventory(message.clone()));
                },
            }
            i += 1;
        }
        assert(all.take(all.len() as int) == all);
        Ok(())
    }

    /// Loads the inventory of one external documentation at `base_url` from the bytes of
    /// its file. A missing file is skipped in permissive mode, and is an unreadable
    /// inventory otherwise.
    pub fn load_external_inventory(&mut self, base_url: &str, data: Option<&[u8]>, permissive: bool) -> (r:
        Result<(), IndexError>)
        ensures
            match data {
                None => if permissive {
                    r is Ok && *final(self) == *old(self)
                } else {
                    adds_inventory(*old(self), *final(self), base_url@, Err(missing_inventory()), r)
                },
                Some(d) => adds_inventory(
                    *old(self),
                    *final(self),
                    base_url@,
                    inventory_entries(d@),
                    r,
                ),
            },
    {
        match data {
            None => if permissive {
                Ok(())
            } else {
                proof {
                    reveal_strlit("the inventory file is missing");
                }
                self.add_external_inventory(
                    base_url,
                    Err(String::from_str("the inventory file is missing")),
                )
            },
            Some(d) => {
                let entries = read_inventory(d);
                self.add_external_inventory(base_url, entries)
            },
        }
    }
}

/// Once reading an inventory stopped, reading more entries changes nothing.
proof fn lemma_with_inventory_stops(
    urls: Map<Seq<char>, Seq<char>>,
    base: Seq<char>,
    a: Seq<Result<InventoryEntryView, Seq<char>>>,
    b: Seq<Result<InventoryEntryView, Seq<char>>>,
)
    ensures
        with_inventory(urls, base, a).1 is Some ==> with_inventory(urls, base, a + b)
            == with_inventory(urls, base, a),
    decreases b.len(),
{
    if b.len() == 0 {
        assert(a + b == a);
    } else {
        assert((a + b).drop_last() == a + b.drop_last());
        lemma_with_inventory_stops(urls, base, a, b.drop_last());
    }
}

} // verus!
