use crate::indexing::content::{ContentNode, ContentNodeView};
use crate::indexing::raw::{
    best_alternative, is_candidate, law_suggestion_is_closest, levenshtein,
    suggest_known_alternative, RawIndex,
};
use crate::indexing::serializable::{with_final_newline, RenderedNotebook, SerializableIndex};
use crate::indexing::store::NameMap;
use crate::parsing::python::class::{
    ClassDocumentation, ClassDocumentationView, ValidatedClassDocumentation,
    ValidatedClassDocumentationView,
};
use crate::parsing::python::function::{
    docstring_view, FunctionDocumentation, FunctionDocumentationView,
    ValidatedFunctionDocumentation, ValidatedFunctionDocumentationView,
};
use crate::parsing::python::module::{
    copy_opt_strings, ValidatedModuleDocumentation, ValidatedModuleDocumentationView,
};
use crate::parsing::python::syntax::{copy_annotation, copy_arguments, copy_type_params};
use crate::parsing::python::object::{
    docstring_of, ObjectDocumentation, ObjectDocumentationView, ValidatedObjectDocumentation,
    ValidatedObjectDocumentationView,
};
use vstd::prelude::*;

verus! {

/// A reference whose target is known: an external URL, or the name of an indexed object.
#[derive(Debug)]
pub struct ValidReference {
    pub target: String,
    pub display: String,
}

/// A reference whose target is not known, with the closest known name, if any.
#[derive(Debug)]
pub struct InvalidReference {
    pub org: String,
    pub suggestions: Option<String>,
    pub source: String,
}

/// A docstring node after its references have been looked up. Invalid references are kept,
/// so that a permissive run can go on and still know which references failed.
#[derive(Debug)]
pub enum ValidatedContentNode {
    Text(String),
    ValidReference(ValidReference),
    InvalidReference(InvalidReference),
}

/// The mathematical value of an [`InvalidReference`].
pub struct InvalidReferenceView {
    pub org: Seq<char>,
    pub suggestions: Option<Seq<char>>,
    pub source: Seq<char>,
}

/// The mathematical value of a [`ValidatedContentNode`].
pub enum ValidatedContentNodeView {
    Text(Seq<char>),
    ValidReference { target: Seq<char>, display: Seq<char> },
    InvalidReference(InvalidReferenceView),
}

impl View for InvalidReference {
    type V = InvalidReferenceView;

    open spec fn view(&self) -> InvalidReferenceView {
        InvalidReferenceView {
            org: self.org@,
            suggestions: match self.suggestions {
                Some(s) => Some(s@),
                None => None,
            },
            source: self.source@,
        }
    }
}

impl View for ValidatedContentNode {
    type V = ValidatedContentNodeView;

    open spec fn view(&self) -> ValidatedContentNodeView {
        match self {
            ValidatedContentNode::Text(t) => ValidatedContentNodeView::Text(t@),
            ValidatedContentNode::ValidReference(r) => ValidatedContentNodeView::ValidReference {
                target: r.target@,
                display: r.display@,
            },
            ValidatedContentNode::InvalidReference(r) => ValidatedContentNodeView::InvalidReference(
                r@,
            ),
        }
    }
}

pub open spec fn validated_views(nodes: Seq<ValidatedContentNode>) -> Seq<ValidatedContentNodeView> {
    nodes.map_values(|n: ValidatedContentNode| n@)
}

impl Clone for InvalidReference {
    fn clone(&self) -> (r: Self)
        ensures
            r == *self,
    {
        let suggestions = match &self.suggestions {
            Some(s) => Some(s.clone()),
            None => None,
        };
        InvalidReference { org: self.org.clone(), suggestions, source: self.source.clone() }
    }
}


/// The page of an indexed object: its validated documentation under its name.
#[derive(Debug)]
pub struct Page {
    pub fully_qualified_name: String,
    pub content: ValidatedObjectDocumentation,
}

/// The page of a notebook.
#[derive(Debug)]
pub struct NotebookPage {
    pub fully_qualified_name: String,
    pub content: Vec<ValidatedContentNode>,
}

/// The mathematical value of a [`Page`].
pub struct PageView {
    pub fully_qualified_name: Seq<char>,
    pub content: ValidatedObjectDocumentationView,
}

impl View for Page {
    type V = PageView;

    open spec fn view(&self) -> PageView {
        PageView { fully_qualified_name: self.fully_qualified_name@, content: self.content@ }
    }
}

/// Everything found in a package after its references were checked: a page per object.
pub struct ValidatedIndex {
    pub pkg_name: String,
    pub pkg_root: String,
    pub page_store: NameMap<Page>,
    pub notebook_store: NameMap<Vec<nbformat::v4::Cell>>,
}

/// What a reference to `name` points to: the URL of an external object of that name, else
/// the name itself when an object of the package has it.
pub open spec fn target_of(raw: RawIndex, name: Seq<char>) -> Option<Seq<char>> {
    if raw.external_object_store@.contains_key(name) {
        Some(raw.external_object_store@[name]@)
    } else if raw.internal_object_store@.contains_key(name) {
        Some(name)
    } else {
        None
    }
}

/// The name to suggest for an unknown reference: the closest internal name and the
/// closest external name (each as `suggest_known_alternative` finds it, with the given
/// limits) are compared, and the external one is taken only when its distance is greater.
pub open spec fn suggestion_of(
    raw: RawIndex,
    unknown: Seq<char>,
    max_length_distance: nat,
    max_edit_distance: nat,
) -> Option<Seq<char>> {
    let internal = best_alternative(
        unknown,
        raw.internal_object_store.names(),
        max_length_distance,
        max_edit_distance,
    );
    let external = best_alternative(
        unknown,
        raw.external_object_store.names(),
        max_length_distance,
        max_edit_distance,
    );
    match (internal, external) {
        (None, None) => None,
        (None, Some((e, _))) => Some(e),
        (Some((i, _)), None) => Some(i),
        (Some((i, is)), Some((e, es))) => if es > is {
            Some(e)
        } else {
            Some(i)
        },
    }
}

/// The source recorded for every invalid reference.
pub open spec fn invalid_source() -> Seq<char> {
    seq!['f', 'o', 'o']
}

/// A node after its reference, if any, was looked up: a reference that points somewhere
/// becomes valid, with its display text or else its name to show; any other becomes
/// invalid, with a suggestion.
pub open spec fn validated_node(raw: RawIndex, n: ContentNodeView) -> ValidatedContentNodeView {
    match n {
        ContentNodeView::Text(t) => ValidatedContentNodeView::Text(t),
        ContentNodeView::Reference(r) => match target_of(raw, r.name) {
            Some(t) => ValidatedContentNodeView::ValidReference {
                target: t,
                display: match r.display {
                    Some(d) => d,
                    None => r.name,
                },
            },
            None => ValidatedContentNodeView::InvalidReference(
                InvalidReferenceView {
                    org: r.name,
                    suggestions: suggestion_of(raw, r.name, 5, 5),
                    source: invalid_source(),
                },
            ),
        },
    }
}

/// The validated nodes of a docstring, in order; none for a missing docstring.
pub open spec fn validated_content(raw: RawIndex, doc: Option<Seq<ContentNodeView>>) -> Seq<
    ValidatedContentNodeView,
> {
    match doc {
        Some(ns) => ns.map_values(|n: ContentNodeView| validated_node(raw, n)),
        None => Seq::empty(),
    }
}

/// The invalid references among validated nodes, in order.
pub open spec fn invalid_among(vs: Seq<ValidatedContentNodeView>) -> Seq<InvalidReferenceView>
    decreases vs.len(),
{
    if vs.len() == 0 {
        Seq::empty()
    } else {
        invalid_among(vs.drop_last()) + match vs.last() {
            ValidatedContentNodeView::InvalidReference(r) => seq![r],
            _ => Seq::empty(),
        }
    }
}


/// The validated documentation of an object whose docstring validated into `content`: the
/// docstring is replaced, and functions, classes and methods are listed by name.
pub open spec fn validated_object(o: ObjectDocumentationView, content: Seq<ValidatedContentNodeView>) -> ValidatedObjectDocumentationView {
    match o {
        ObjectDocumentationView::Module(m) => ValidatedObjectDocumentationView::Module(
            ValidatedModuleDocumentationView {
                docstring: Some(content),
                functions: m.functions.map_values(|f: FunctionDocumentationView| f.name),
                classes: m.classes.map_values(|c: ClassDocumentationView| c.name),
                sub_modules: m.sub_modules,
                exports: m.exports,
                source_file: m.source_file,
            },
        ),
        ObjectDocumentationView::Class(c) => ValidatedObjectDocumentationView::Class(
            ValidatedClassDocumentationView {
                name: c.name,
                docstring: Some(content),
                method_names: c.methods.map_values(|f: FunctionDocumentationView| f.name),
                first_line: c.first_line,
                last_line: c.last_line,
                source_file: c.source_file,
            },
        ),
        ObjectDocumentationView::Function(f) => ValidatedObjectDocumentationView::Function(
            ValidatedFunctionDocumentationView {
                name: f.name,
                docstring: Some(content),
                return_type: f.return_type,
                args: f.args,
                generics: f.generics,
                first_line: f.first_line,
                last_line: f.last_line,
                source_file: f.source_file,
            },
        ),
    }
}

fn target_for(raw: &RawIndex, name: &String) -> (r: Option<String>)
    ensures
        match target_of(*raw, name@) {
            Some(t) => r matches Some(s) && s@ == t,
            None => r is None,
        },
{
    match raw.external_object_store.get(name) {
        Some(url) => Some(url.clone()),
        None => if raw.internal_object_store.contains_key(name) {
            Some(name.clone())
        } else {
            None
        },
    }
}

/// Suggests a known name for an unknown reference, preferring the internal suggestion
/// unless the external one's distance is greater.
fn suggest_reference(
    raw: &RawIndex,
    unknown_reference: &str,
    max_length_distance: usize,
    max_edit_distance: usize,
) -> (r: Option<String>)
    ensures
        match suggestion_of(
            *raw,
            unknown_reference@,
            max_length_distance as nat,
            max_edit_distance as nat,
        ) {
            Some(t) => r matches Some(s) && s@ == t,
            None => r is None,
        },
{
    let best_internal_candidate = suggest_known_alternative(
        unknown_reference,
        raw.internal_object_store.names_vec(),
        max_length_distance,
        max_edit_distance,
    );
    let best_external_candidate = suggest_known_alternative(
        unknown_reference,
        raw.external_object_store.names_vec(),
        max_length_distance,
        max_edit_distance,
    );
    match (best_internal_candidate, best_external_candidate) {
        (None, None) => None,
        (None, Some((external, _score))) => Some(external),
        (Some((internal, _score)), None) => Some(internal),
        (Some((internal, internal_score)), Some((external, external_score))) => {
            if external_score > internal_score {
                Some(external)
            } else {
                Some(internal)
            }
        },
    }
}

fn validate_node(raw: &RawIndex, node: &ContentNode) -> (r: ValidatedContentNode)
    ensures
        r@ == validated_node(*raw, node@),
{
    match node {
        ContentNode::Text(t) => ValidatedContentNode::Text(t.clone()),
        ContentNode::Reference(used_ref) => {
            let display_text = match &used_ref.display_text {
                Some(d) => d.clone(),
                None => used_ref.fully_qualified_name.clone(),
            };
            match target_for(raw, &used_ref.fully_qualified_name) {
                Some(target) => ValidatedContentNode::ValidReference(
                    ValidReference { target, display: display_text },
                ),
                None => {
                    let suggestion = suggest_reference(
                        raw,
                        used_ref.fully_qualified_name.as_str(),
                        5,
                        5,
                    );
                    let source = String::from_str("foo");
                    proof {
                        reveal_strlit("foo");
                    }
                    assert(source@ =~= invalid_source());
                    ValidatedContentNode::InvalidReference(
                        InvalidReference {
                            org: used_ref.fully_qualified_name.clone(),
                            suggestions: suggestion,
                            source,
                        },
                    )
                },
            }
        },
    }
}

pub open spec fn invalid_views(v: Seq<InvalidReference>) -> Seq<InvalidReferenceView> {
    v.map_values(|r: InvalidReference| r@)
}

/// Validates the nodes of a docstring, and collects its invalid references.
fn validate_docstring(raw: &RawIndex, doc: &Option<Vec<ContentNode>>) -> (r: (
    Vec<ValidatedContentNode>,
    Vec<InvalidReference>,
))
    ensures
        validated_views(r.0@) == validated_content(*raw, docstring_view(*doc)),
        invalid_views(r.1@) == invalid_among(validated_content(*raw, docstring_view(*doc))),
{
    let mut out: Vec<ValidatedContentNode> = Vec::new();
    let mut invalid: Vec<InvalidReference> = Vec::new();
    match doc {
        None => {
            assert(validated_views(out@) =~= Seq::<ValidatedContentNodeView>::empty());
            assert(invalid_views(invalid@) =~= Seq::<InvalidReferenceView>::empty());
            (out, invalid)
        },
        Some(nodes) => {
            let ghost all = validated_content(*raw, docstring_view(*doc));
            let mut i: usize = 0;
            while i < nodes.len()
                invariant
                    i <= nodes@.len(),
                    *doc == Some(*nodes),
                    all == validated_content(*raw, docstring_view(*doc)),
                    all.len() == nodes@.len(),
                    out@.len() == i,
                    forall|j: int| 0 <= j < i ==> #[trigger] out@[j]@ == all[j],
                    invalid_views(invalid@) == invalid_among(all.take(i as int)),
                decreases nodes@.len() - i,
            {
                let v = validate_node(raw, &nodes[i]);
                assert(all[i as int] == v@);
                assert(all.take(i + 1).drop_last() == all.take(i as int));
                assert(all.take(i + 1).last() == v@);
                match &v {
                    ValidatedContentNode::InvalidReference(r) => {
                        let ghost prev = invalid@;
                        invalid.push(r.clone());
                        assert(invalid_views(invalid@) =~= invalid_views(prev).push(r@));
                    },
                    _ => {},
                }
                out.push(v);
                i += 1;
            }
            assert(all.take(nodes@.len() as int) == all);
            assert(validated_views(out@) =~= all);
            (out, invalid)
        },
    }
}

fn function_names(fs: &Vec<FunctionDocumentation>) -> (r: Vec<String>)
    ensures
        r@.map_values(|s: String| s@) == fs@.map_values(|f: FunctionDocumentation| f@).map_values(
            |f: FunctionDocumentationView| f.name,
        ),
{
    let mut r: Vec<String> = Vec::new();
    let mut i: usize = 0;
    while i < fs.len()
        invariant
            i <= fs@.len(),
            r@.len() == i,
            forall|j: int| 0 <= j < i ==> #[trigger] r@[j]@ == fs@[j].name@,
        decreases fs@.len() - i,
    {
        r.push(fs[i].name.clone());
        i += 1;
    }
    assert(r@.map_values(|s: String| s@) =~= fs@.map_values(|f: FunctionDocumentation| f@).map_values(
        |f: FunctionDocumentationView| f.name,
    ));
    r
}

fn class_names(cs: &Vec<ClassDocumentation>) -> (r: Vec<String>)
    ensures
        r@.map_values(|s: String| s@) == cs@.map_values(|c: ClassDocumentation| c@).map_values(
            |c: ClassDocumentationView| c.name,
        ),
{
    let mut r: Vec<String> = Vec::new();
    let mut i: usize = 0;
    while i < cs.len()
        invariant
            i <= cs@.len(),
            r@.len() == i,
            forall|j: int| 0 <= j < i ==> #[trigger] r@[j]@ == cs@[j].name@,
        decreases cs@.len() - i,
    {
        r.push(cs[i].name.clone());
        i += 1;
    }
    assert(r@.map_values(|s: String| s@) =~= cs@.map_values(|c: ClassDocumentation| c@).map_values(
        |c: ClassDocumentationView| c.name,
    ));
    r
}

/// The validated documentation of an object, with `content` as its docstring.
fn validated_documentation(obj: &ObjectDocumentation, content: Vec<ValidatedContentNode>) -> (r:
    ValidatedObjectDocumentation)
    ensures
        r@ == validated_object(obj@, validated_views(content@)),
{
    match obj {
        ObjectDocumentation::Module(module) => ValidatedObjectDocumentation::Module(
            ValidatedModuleDocumentation {
                docstring: Some(content),
                functions: function_names(&module.functions),
                classes: class_names(&module.classes),
                sub_modules: copy_opt_strings(&module.sub_modules),
                exports: copy_opt_strings(&module.exports),
                source_file: module.source_file.clone(),
            },
        ),
        ObjectDocumentation::Class(class) => ValidatedObjectDocumentation::Class(
            ValidatedClassDocumentation {
                name: class.name.clone(),
                docstring: Some(content),
                method_names: function_names(&class.methods),
                first_line: class.first_line,
                last_line: class.last_line,
                source_file: class.source_file.clone(),
            },
        ),
        ObjectDocumentation::Function(function) => ValidatedObjectDocumentation::Function(
            ValidatedFunctionDocumentation {
                name: function.name.clone(),
                docstring: Some(content),
                return_type: copy_annotation(&function.return_type),
                args: copy_arguments(&function.args),
                generics: copy_type_params(&function.generics),
                first_line: function.first_line,
                last_line: function.last_line,
                source_file: function.source_file.clone(),
            },
        ),
    }
}


/// The page that validation makes of the object named `k`.
pub open spec fn page_of(raw: RawIndex, k: Seq<char>) -> PageView {
    let o = raw.internal_object_store@[k]@;
    PageView {
        fully_qualified_name: k,
        content: validated_object(o, validated_content(raw, docstring_of(o))),
    }
}

/// The invalid references in the docstring of the object named `k`.
pub open spec fn invalid_of(raw: RawIndex, k: Seq<char>) -> Seq<InvalidReferenceView> {
    invalid_among(validated_content(raw, docstring_of(raw.internal_object_store@[k]@)))
}

impl ValidatedIndex {
    /// Checks the references in every docstring against the external and internal objects:
    /// each object gets a page, and the invalid references are collected by the name of the
    /// object whose docstring holds them.
    pub fn from_raw(raw: RawIndex) -> (r: (Self, NameMap<Vec<InvalidReference>>))
        ensures
            r.0.pkg_name == raw.pkg_name,
            r.0.pkg_root == raw.pkg_root,
            r.0.notebook_store == raw.notebook_store,
            r.0.page_store.names() == raw.internal_object_store.names(),
            forall|k: Seq<char>| #[trigger]
                r.0.page_store@.contains_key(k) <==> raw.internal_object_store@.contains_key(k),
            forall|k: Seq<char>| #[trigger]
                raw.internal_object_store@.contains_key(k) ==> r.0.page_store@[k]@ == page_of(raw, k),
            forall|k: Seq<char>| #[trigger]
                r.1@.contains_key(k) <==> raw.internal_object_store@.contains_key(k)
                    && invalid_of(raw, k).len() > 0,
            forall|k: Seq<char>| #[trigger]
                r.1@.contains_key(k) ==> invalid_views(r.1@[k]@) == invalid_of(raw, k),
    {
        let mut page_store: NameMap<Page> = NameMap::new();
        let mut invalid_references: NameMap<Vec<InvalidReference>> = NameMap::new();
        let n = raw.internal_object_store.len();
        let ghost names = raw.internal_object_store.names();
        proof {
            raw.internal_object_store.lemma_names_are_keys();
        }
        let mut i: usize = 0;
        while i < n
            invariant
                i <= n,
                n == names.len(),
                names == raw.internal_object_store.names(),
                names.no_duplicates(),
                forall|k: Seq<char>| #[trigger]
                    raw.internal_object_store@.contains_key(k) <==> names.contains(k),
                page_store.names() == names.take(i as int),
                forall|j: int| 0 <= j < i ==> page_store@.contains_key(#[trigger] names[j])
                    && page_store@[names[j]]@ == page_of(raw, names[j]),
                forall|k: Seq<char>| #[trigger]
                    invalid_references@.contains_key(k) ==> names.take(i as int).contains(k)
                        && invalid_of(raw, k).len() > 0 && invalid_views(invalid_references@[k]@)
                        == invalid_of(raw, k),
                forall|j: int| 0 <= j < i && invalid_of(raw, #[trigger] names[j]).len() > 0
                    ==> invalid_references@.contains_key(names[j]),
            decreases n - i,
        {
            let (key, obj) = raw.internal_object_store.entry_at(i);
            let ghost k = key@;
            proof {
                page_store.lemma_names_are_keys();
                invalid_references.lemma_names_are_keys();
                assert(!names.take(i as int).contains(k)) by {
                    if names.take(i as int).contains(k) {
                        let j = choose|j: int| 0 <= j < i && names.take(i as int)[j] == k;
                        assert(names[j] == names[i as int]);
                    }
                }
            }
            let doc = obj.docstring();
            let (validated, invalid) = validate_docstring(&raw, &doc);
            let ghost content = validated_views(validated@);
            assert(content == validated_content(raw, docstring_of(raw.internal_object_store@[k]@)));
            if invalid.len() > 0 {
                invalid_references.insert(key.clone(), invalid);
            }
            let page = Page {
                fully_qualified_name: key.clone(),
                content: validated_documentation(obj, validated),
            };
            assert(page@ == page_of(raw, k));
            page_store.insert(key.clone(), page);
            assert(names.take(i + 1) == names.take(i as int).push(k));
            proof {
                assert forall|kk: Seq<char>| #[trigger]
                    invalid_references@.contains_key(kk) implies names.take(i + 1).contains(kk)
                    && invalid_of(raw, kk).len() > 0 && invalid_views(invalid_references@[kk]@)
                    == invalid_of(raw, kk) by {
                    if kk != k {
                        let j = choose|j: int| 0 <= j < i && names.take(i as int)[j] == kk;
                        assert(names.take(i + 1)[j] == kk);
                    } else {
                        assert(names.take(i + 1)[i as int] == kk);
                    }
                }
            }
            i += 1;
        }
        assert(names.take(n as int) == names);
        proof {
            page_store.lemma_names_are_keys();
            assert forall|k: Seq<char>| #[trigger]
                raw.internal_object_store@.contains_key(k) implies page_store@[k]@ == page_of(raw, k) by {
                let j = choose|j: int| 0 <= j < names.len() && names[j] == k;
            }
            assert forall|k: Seq<char>|
                raw.internal_object_store@.contains_key(k) && invalid_of(raw, k).len()
                    > 0 implies #[trigger] invalid_references@.contains_key(k) by {
                let j = choose|j: int| 0 <= j < names.len() && names[j] == k;
            }
        }
        (
            ValidatedIndex {
                page_store,
                notebook_store: raw.notebook_store,
                pkg_name: raw.pkg_name,
                pkg_root: raw.pkg_root,
            },
            invalid_references,
        )
    }
}

/// Validation keeps a docstring's shape: one node for each node, text unchanged, and a
/// reference valid exactly when an external or internal object has its name, pointing at
/// the external URL when there is one.
pub proof fn law_validation_keeps_shape(raw: RawIndex, ns: Seq<ContentNodeView>)
    ensures
        validated_content(raw, Some(ns)).len() == ns.len(),
        forall|i: int|
            0 <= i < ns.len() ==> match #[trigger] ns[i] {
                ContentNodeView::Text(t) => validated_content(raw, Some(ns))[i]
                    == ValidatedContentNodeView::Text(t),
                ContentNodeView::Reference(r) => {
                    &&& (validated_content(raw, Some(ns))[i] is ValidReference <==> (
                    raw.external_object_store@.contains_key(r.name)
                        || raw.internal_object_store@.contains_key(r.name)))
                    &&& raw.external_object_store@.contains_key(r.name) ==> validated_content(
                        raw,
                        Some(ns),
                    )[i]->target == raw.external_object_store@[r.name]@
                },
            },
{
}

impl ValidatedIndex {
    /// The rendered output of the index; see [`SerializableIndex::from_validated`].
    pub fn render(
        self,
        rendered_pages: Vec<String>,
        rendered_notebooks: Option<Vec<Option<RenderedNotebook>>>,
    ) -> (r: SerializableIndex)
        requires
            rendered_pages@.len() == self.page_store.names().len(),
            rendered_notebooks matches Some(nbs) ==> nbs@.len()
                == self.notebook_store.names().len(),
        ensures
            r.page_store.names() == self.page_store.names(),
            forall|j: int|
                0 <= j < rendered_pages@.len() ==> #[trigger] r.page_store@[self.page_store.names()[j]]@
                    == rendered_pages@[j]@,
            match rendered_notebooks {
                None => r.notebook_store@ == Map::<Seq<char>, RenderedNotebook>::empty(),
                Some(nbs) => {
                    &&& forall|k: Seq<char>| #[trigger]
                        r.notebook_store@.contains_key(k) <==> exists|j: int|
                            0 <= j < nbs@.len() && self.notebook_store.names()[j] == k
                                && #[trigger] nbs@[j] is Some
                    &&& forall|j: int|
                        0 <= j < nbs@.len() && #[trigger] nbs@[j] is Some ==> {
                            &&& r.notebook_store@[self.notebook_store.names()[j]].text@
                                == with_final_newline(nbs@[j]->0.text@)
                            &&& r.notebook_store@[self.notebook_store.names()[j]].images
                                == nbs@[j]->0.images
                        }
                },
            },
    {
        SerializableIndex::from_validated(self, rendered_pages, rendered_notebooks)
    }
}

/// A node is a reference to a name that no external and no internal object has.
pub open spec fn is_unknown_reference(raw: RawIndex, n: ContentNodeView) -> bool {
    &&& n is Reference
    &&& !raw.external_object_store@.contains_key(n->Reference_0.name)
    &&& !raw.internal_object_store@.contains_key(n->Reference_0.name)
}

/// Every broken reference of a docstring is reported, once, in order: the invalid
/// references that validation collects are exactly its reference nodes whose name no
/// external and no internal object has, as many as there are such nodes, each under the
/// name the node refers to.
pub proof fn law_invalid_references_are_the_unknown_ones(raw: RawIndex, ns: Seq<ContentNodeView>)
    ensures
        invalid_among(validated_content(raw, Some(ns))).len() == ns.filter(
            |n: ContentNodeView| is_unknown_reference(raw, n),
        ).len(),
        forall|j: int|
            0 <= j < invalid_among(validated_content(raw, Some(ns))).len() ==> (#[trigger] invalid_among(
                validated_content(raw, Some(ns)),
            )[j]).org == ns.filter(|n: ContentNodeView| is_unknown_reference(raw, n))[j]->Reference_0.name,
    decreases ns.len(),
{
    reveal(Seq::filter);
    let pred = |n: ContentNodeView| is_unknown_reference(raw, n);
    if ns.len() > 0 {
        let prev = ns.drop_last();
        law_invalid_references_are_the_unknown_ones(raw, prev);
        let vs = validated_content(raw, Some(ns));
        assert(vs.drop_last() == validated_content(raw, Some(prev)));
        assert(vs.last() == validated_node(raw, ns.last()));
        assert(ns.filter(pred) == if pred(ns.last()) {
            prev.filter(pred).push(ns.last())
        } else {
            prev.filter(pred)
        });
    } else {
        assert(validated_content(raw, Some(ns)).len() == 0);
    }
}

/// An unknown reference gets a suggestion exactly when some known name, internal or
/// external, is close enough to it; the suggestion is such a close name; and when no
/// internal name is close, it is an external name of least edit distance.
pub proof fn law_suggestion_exists_when_a_name_is_close(
    raw: RawIndex,
    unknown: Seq<char>,
    max_length_distance: nat,
    max_edit_distance: nat,
)
    ensures
        suggestion_of(raw, unknown, max_length_distance, max_edit_distance) is Some <==> exists|
            k: Seq<char>,
        |
            (raw.internal_object_store.names().contains(k)
                || raw.external_object_store.names().contains(k)) && is_candidate(
                unknown,
                k,
                max_length_distance,
                max_edit_distance,
            ),
        suggestion_of(raw, unknown, max_length_distance, max_edit_distance) matches Some(s) ==> {
            &&& raw.internal_object_store.names().contains(s)
                || raw.external_object_store.names().contains(s)
            &&& is_candidate(unknown, s, max_length_distance, max_edit_distance)
        },
        (forall|k: Seq<char>|
            raw.internal_object_store.names().contains(k) ==> !is_candidate(
                unknown,
                k,
                max_length_distance,
                max_edit_distance,
            )) ==> (suggestion_of(raw, unknown, max_length_distance, max_edit_distance) matches Some(
            s,
        ) ==> {
            &&& raw.external_object_store.names().contains(s)
            &&& forall|k: Seq<char>|
                raw.external_object_store.names().contains(k) && is_candidate(
                    unknown,
                    k,
                    max_length_distance,
                    max_edit_distance,
                ) ==> levenshtein(s, unknown) <= levenshtein(k, unknown)
        }),
{
    let ins = raw.internal_object_store.names();
    let exs = raw.external_object_store.names();
    law_suggestion_is_closest(unknown, ins, max_length_distance, max_edit_distance);
    law_suggestion_is_closest(unknown, exs, max_length_distance, max_edit_distance);
    let internal = best_alternative(unknown, ins, max_length_distance, max_edit_distance);
    let external = best_alternative(unknown, exs, max_length_distance, max_edit_distance);
    assert forall|k: Seq<char>|
        (ins.contains(k) || exs.contains(k)) && is_candidate(
            unknown,
            k,
            max_length_distance,
            max_edit_distance,
        ) implies suggestion_of(raw, unknown, max_length_distance, max_edit_distance) is Some by {
        if ins.contains(k) {
            let j = choose|j: int| 0 <= j < ins.len() && ins[j] == k;
            assert(internal is Some);
        } else {
            let j = choose|j: int| 0 <= j < exs.len() && exs[j] == k;
            assert(external is Some);
        }
    }
    if let Some((i, _)) = internal {
        assert(ins.contains(i));
    }
    if let Some((e, d)) = external {
        assert(exs.contains(e));
        assert forall|k: Seq<char>|
            exs.contains(k) && is_candidate(
                unknown,
                k,
                max_length_distance,
                max_edit_distance,
            ) implies levenshtein(e, unknown) <= levenshtein(k, unknown) by {
            let j = choose|j: int| 0 <= j < exs.len() && exs[j] == k;
        }
    }
    if (forall|k: Seq<char>|
        ins.contains(k) ==> !is_candidate(unknown, k, max_length_distance, max_edit_distance)) {
        if let Some((i, _)) = internal {
            assert(ins.contains(i));
        }
    }
}

impl RawIndex {
    /// Checks the references of the index; see [`ValidatedIndex::from_raw`].
    pub fn validate(self) -> (r: (ValidatedIndex, NameMap<Vec<InvalidReference>>))
        ensures
            r.0.pkg_name == self.pkg_name,
            r.0.pkg_root == self.pkg_root,
            r.0.notebook_store == self.notebook_store,
            r.0.page_store.names() == self.internal_object_store.names(),
            forall|k: Seq<char>| #[trigger]
                r.0.page_store@.contains_key(k) <==> self.internal_object_store@.contains_key(k),
            forall|k: Seq<char>| #[trigger]
                self.internal_object_store@.contains_key(k) ==> r.0.page_store@[k]@ == page_of(self, k),
            forall|k: Seq<char>| #[trigger]
                r.1@.contains_key(k) <==> self.internal_object_store@.contains_key(k)
                    && invalid_of(self, k).len() > 0,
            forall|k: Seq<char>| #[trigger]
                r.1@.contains_key(k) ==> invalid_views(r.1@[k]@) == invalid_of(self, k),
    {
        ValidatedIndex::from_raw(self)
    }
}

} // verus!
