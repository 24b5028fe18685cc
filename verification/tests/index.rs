use snakedown::indexing::content::{ContentNode, Reference, ValidatedReference};
use snakedown::indexing::raw::{
    get_from_import_path, should_include_reference, IndexError, InventoryEntry, RawIndex,
};
use snakedown::indexing::serializable::{
    ensure_final_newline, NotebookImage, RenderedNotebook, SerializableIndex,
};
use snakedown::indexing::validated::{ValidatedContentNode, ValidatedIndex};
use snakedown::parsing::python::object::{ObjectDocumentation, ValidatedObjectDocumentation};

const GREETER_MODULE: &str = r#"
'''The greeting module; see [[test_pkg.bar.greet]] and [[os.path|paths]].'''

class Greeter:
    '''Greets, unlike [[test_pkg.bar.great]].'''

    def greet(self):
        '''Says hello.'''
        print("Hello, world!")

def greet():
    '''A plain greeting.'''
    print("Hello")
"#;

fn index_with_greeter() -> RawIndex {
    let mut index = RawIndex::new(String::from("/work/test_pkg"), false, false).unwrap();
    index.index_source("bar.py", GREETER_MODULE).unwrap();
    index
}

fn python_inventory() -> Vec<Result<InventoryEntry, String>> {
    vec![Ok(InventoryEntry {
        name: String::from("os.path"),
        sphinx_type: String::from("py:module"),
        location: String::from("library/os.path.html#module-os.path"),
    })]
}

fn sorted_keys(index: &RawIndex) -> Vec<String> {
    let mut keys = index.internal_object_store.names_vec();
    keys.sort();
    keys
}

#[test]
fn new_names_package_by_file_stem() {
    let index = RawIndex::new(String::from("/work/test_pkg"), true, false).unwrap();
    assert_eq!(index.pkg_name, "test_pkg");
    assert!(index.skip_undoc);
    assert!(!index.skip_private);
    assert_eq!(index.internal_object_store.len(), 0);
    assert_eq!(index.pkg_root, "/work/test_pkg");
}

#[test]
fn new_refuses_root_without_file_stem() {
    let r = RawIndex::new(String::from("/"), false, false);
    assert!(matches!(r, Err(IndexError::PackageName)));
}

#[test]
fn import_path_joins_components_with_dots() {
    assert_eq!(get_from_import_path(String::from("pkg"), "a/b/c.py").unwrap(), "pkg.a.b.c");
    assert_eq!(get_from_import_path(String::from("pkg"), "mod.py").unwrap(), "pkg.mod");
}

#[test]
fn indexing_a_module_stores_every_object() {
    let index = index_with_greeter();
    assert_eq!(
        sorted_keys(&index),
        vec![
            "test_pkg.bar",
            "test_pkg.bar.Greeter",
            "test_pkg.bar.Greeter.greet",
            "test_pkg.bar.greet",
        ]
    );
    assert!(matches!(
        index.internal_object_store.get(&String::from("test_pkg.bar.Greeter")),
        Some(ObjectDocumentation::Class(_))
    ));
    assert!(matches!(
        index.internal_object_store.get(&String::from("test_pkg.bar.greet")),
        Some(ObjectDocumentation::Function(_))
    ));
}

#[test]
fn module_source_file_lies_in_the_package() {
    let index = index_with_greeter();
    match index.internal_object_store.get(&String::from("test_pkg.bar")) {
        Some(ObjectDocumentation::Module(m)) => assert_eq!(m.source_file, "test_pkg/bar.py"),
        _ => panic!("the module is indexed as a module"),
    }
}

#[test]
fn init_file_names_its_package() {
    let mut index = RawIndex::new(String::from("/work/test_pkg"), false, false).unwrap();
    index.index_source("foo/__init__.py", "'''The foo package.'''\n").unwrap();
    assert_eq!(sorted_keys(&index), vec!["test_pkg.foo"]);
}

#[test]
fn skip_undoc_leaves_out_undocumented_objects() {
    let mut index = RawIndex::new(String::from("/work/test_pkg"), true, false).unwrap();
    let source = "'''Doc.'''\n\ndef documented():\n    '''Yes.'''\n    pass\n\ndef bare():\n    pass\n";
    index.index_source("m.py", source).unwrap();
    assert_eq!(sorted_keys(&index), vec!["test_pkg.m", "test_pkg.m.documented"]);
}

#[test]
fn syntax_errors_refuse_the_file() {
    let mut index = RawIndex::new(String::from("/work/test_pkg"), false, false).unwrap();
    let r = index.index_source("bad.py", "def broken(:\n");
    assert!(matches!(r, Err(IndexError::PythonSyntax(_))));
    assert_eq!(index.internal_object_store.len(), 0);
}

#[test]
fn indexing_twice_reports_the_duplicate() {
    let mut index = index_with_greeter();
    let r = index.index_source("bar.py", GREETER_MODULE);
    assert_eq!(r, Err(IndexError::DuplicateKey(String::from("test_pkg.bar.Greeter"))));
}

#[test]
fn index_file_takes_the_path_inside_the_root() {
    let mut index = RawIndex::new(String::from("/work/test_pkg"), false, false).unwrap();
    index.index_file("/work/test_pkg/sub/mod.py", "'''Doc.'''\n").unwrap();
    assert_eq!(sorted_keys(&index), vec!["test_pkg.sub.mod"]);
}

#[test]
fn index_file_refuses_files_outside_the_root() {
    let mut index = RawIndex::new(String::from("/work/test_pkg"), false, false).unwrap();
    let r = index.index_file("/elsewhere/mod.py", "'''Doc.'''\n");
    assert_eq!(r, Err(IndexError::OutsidePackage));
    assert_eq!(index.internal_object_store.len(), 0);
}

#[test]
fn notebooks_are_stored_by_file_stem() {
    let mut index = RawIndex::new(String::from("/work/test_pkg"), false, false).unwrap();
    assert_eq!(index.index_notebook("notebooks/intro.ipynb", Ok(Vec::new())), Ok(false));
    assert!(index.notebook_store.contains_key(&String::from("intro")));
    assert_eq!(index.index_notebook("other/intro.ipynb", Ok(Vec::new())), Ok(true));
    assert_eq!(index.notebook_store.len(), 1);
}

#[test]
fn notebook_errors() {
    let mut index = RawIndex::new(String::from("/work/test_pkg"), false, false).unwrap();
    assert_eq!(index.index_notebook("/", Ok(Vec::new())), Err(IndexError::NotebookName));
    assert_eq!(
        index.index_notebook("intro.ipynb", Err(String::from("not json"))),
        Err(IndexError::Notebook(String::from("not json")))
    );
    assert_eq!(index.notebook_store.len(), 0);
}

#[test]
fn external_inventory_resolves_locations() {
    let mut index = RawIndex::new(String::from("/work/test_pkg"), false, false).unwrap();
    index.add_external_inventory("https://docs.python.org/3/", Ok(python_inventory())).unwrap();
    assert_eq!(
        index.external_object_store.get(&String::from("os.path")).cloned(),
        Some(String::from("https://docs.python.org/3/library/os.path.html#module-os.path"))
    );
}

#[test]
fn external_inventory_errors() {
    let mut index = RawIndex::new(String::from("/work/test_pkg"), false, false).unwrap();
    assert_eq!(
        index.add_external_inventory("not a url", Ok(python_inventory())),
        Err(IndexError::InvalidUrl(String::from("not a url")))
    );
    assert_eq!(
        index.add_external_inventory("https://docs.python.org/3/", Err(String::from("truncated"))),
        Err(IndexError::Inventory(String::from("truncated")))
    );
    assert_eq!(index.external_object_store.len(), 0);
    let mut entries = python_inventory();
    entries.push(Err(String::from("bad line")));
    assert_eq!(
        index.add_external_inventory("https://docs.python.org/3/", Ok(entries)),
        Err(IndexError::Inventory(String::from("bad line")))
    );
    assert_eq!(index.external_object_store.len(), 1);
}

#[test]
fn validation_checks_every_reference() {
    let mut index = index_with_greeter();
    index.add_external_inventory("https://docs.python.org/3/", Ok(python_inventory())).unwrap();
    let (validated, invalid) = index.validate();
    assert_eq!(validated.pkg_name, "test_pkg");
    assert_eq!(validated.page_store.len(), 4);

    let module_page = validated.page_store.get(&String::from("test_pkg.bar")).unwrap();
    let docstring = match &module_page.content {
        ValidatedObjectDocumentation::Module(m) => m.docstring.as_ref().unwrap(),
        _ => panic!("the module's page holds a module"),
    };
    let targets: Vec<(String, String)> = docstring
        .iter()
        .filter_map(|n| match n {
            ValidatedContentNode::ValidReference(r) => Some((r.target.clone(), r.display.clone())),
            _ => None,
        })
        .collect();
    assert_eq!(
        targets,
        vec![
            (String::from("test_pkg.bar.greet"), String::from("test_pkg.bar.greet")),
            (
                String::from("https://docs.python.org/3/library/os.path.html#module-os.path"),
                String::from("paths")
            ),
        ]
    );

    assert_eq!(invalid.len(), 1);
    let class_invalid = invalid.get(&String::from("test_pkg.bar.Greeter")).unwrap();
    assert_eq!(class_invalid.len(), 1);
    assert_eq!(class_invalid[0].org, "test_pkg.bar.great");
    assert_eq!(class_invalid[0].suggestions, Some(String::from("test_pkg.bar.greet")));
    assert_eq!(class_invalid[0].source, "foo");
}

#[test]
fn validation_keeps_text_nodes() {
    let index = index_with_greeter();
    let (validated, _invalid) = ValidatedIndex::from_raw(index);
    let page = validated.page_store.get(&String::from("test_pkg.bar.greet")).unwrap();
    match &page.content {
        ValidatedObjectDocumentation::Function(f) => {
            let doc = f.docstring.as_ref().unwrap();
            assert_eq!(doc.len(), 1);
            assert!(matches!(&doc[0], ValidatedContentNode::Text(t) if t == "A plain greeting."));
        }
        _ => panic!("the function's page holds a function"),
    }
}

#[test]
fn rendering_stores_pages_and_notebooks() {
    let mut index = index_with_greeter();
    index.index_notebook("intro.ipynb", Ok(Vec::new())).unwrap();
    index.index_notebook("broken.ipynb", Ok(Vec::new())).unwrap();
    let (validated, _invalid) = index.validate();
    let names = validated.page_store.names_vec();
    let pages: Vec<String> = names.iter().map(|n| format!("# {n}")).collect();
    let notebooks = vec![
        Some(RenderedNotebook {
            text: String::from("intro"),
            images: vec![NotebookImage { name: String::from("a.png"), data: vec![1, 2] }],
        }),
        None,
    ];
    let rendered = validated.render(pages, Some(notebooks));
    assert_eq!(rendered.page_store.len(), 4);
    assert_eq!(
        rendered.page_store.get(&String::from("test_pkg.bar.Greeter")).cloned(),
        Some(String::from("# test_pkg.bar.Greeter"))
    );
    assert_eq!(rendered.notebook_store.len(), 1);
    let intro = rendered.notebook_store.get(&String::from("intro")).unwrap();
    assert_eq!(intro.text, "intro\n");
    assert_eq!(intro.images[0].data, vec![1, 2]);
}

#[test]
fn rendering_without_notebook_output_stores_no_notebooks() {
    let mut index = index_with_greeter();
    index.index_notebook("intro.ipynb", Ok(Vec::new())).unwrap();
    let (validated, _invalid) = index.validate();
    let pages = vec![String::new(); 4];
    let rendered = SerializableIndex::from_validated(validated, pages, None);
    assert_eq!(rendered.notebook_store.len(), 0);
    assert_eq!(rendered.page_store.len(), 4);
}

#[test]
fn final_newline_is_added_once() {
    let mut a = String::from("text");
    ensure_final_newline(&mut a);
    assert_eq!(a, "text\n");
    ensure_final_newline(&mut a);
    assert_eq!(a, "text\n");
    let mut empty = String::new();
    ensure_final_newline(&mut empty);
    assert_eq!(empty, "\n");
}

#[test]
fn added_notebook_ends_in_newline() {
    let mut s = SerializableIndex::new();
    s.add_notebook(String::from("nb"), RenderedNotebook { text: String::from("x"), images: Vec::new() });
    assert_eq!(s.notebook_store.get(&String::from("nb")).unwrap().text, "x\n");
}

#[test]
fn object_docstring_is_the_inner_docstring() {
    let index = index_with_greeter();
    let obj = index.internal_object_store.get(&String::from("test_pkg.bar.greet")).unwrap();
    assert_eq!(obj.docstring(), Some(vec![ContentNode::Text(String::from("A plain greeting."))]));
}

#[test]
fn validated_reference_holds_subject_and_text() {
    let r = ValidatedReference { subject: String::from("a.b"), display_text: String::from("b") };
    assert_eq!(r.clone(), r);
    assert_eq!(Reference::new(String::from("a.b"), None).original(), "[[a.b]]");
}

const PLAIN_INVENTORY: &str = "# Sphinx inventory file 2
# Project: Python
# Version: 3
# The remainder of this file is compressed using plain-text.
str.join py:method 1 library/stdtypes.html#$ -
str.lower py:method 1 library/stdtypes.html#str.lower -
tutorial std:label -1 tutorial/index.html#$ The Python Tutorial
";

#[test]
fn inventory_bytes_are_read_and_stored() {
    let mut index = RawIndex::new(String::from("/work/test_pkg"), false, false).unwrap();
    index
        .load_external_inventory("https://docs.python.org/3/", Some(PLAIN_INVENTORY.as_bytes()), false)
        .unwrap();
    assert_eq!(
        index.external_object_store.get(&String::from("str.join")).cloned(),
        Some(String::from("https://docs.python.org/3/library/stdtypes.html#str.join"))
    );
    assert_eq!(index.external_object_store.len(), 2);
}

#[test]
fn missing_inventory_is_skipped_only_when_permissive() {
    let mut index = RawIndex::new(String::from("/work/test_pkg"), false, false).unwrap();
    assert_eq!(index.load_external_inventory("https://docs.python.org/3/", None, true), Ok(()));
    assert!(matches!(
        index.load_external_inventory("https://docs.python.org/3/", None, false),
        Err(IndexError::Inventory(_))
    ));
    assert!(matches!(
        index.load_external_inventory("not a url", None, false),
        Err(IndexError::InvalidUrl(_))
    ));
    assert!(matches!(
        index.load_external_inventory("https://docs.python.org/3/", Some(b"garbage"), false),
        Err(IndexError::Inventory(_))
    ));
    assert_eq!(index.external_object_store.len(), 0);
}

#[test]
fn redefined_exports_are_reported() {
    let mut index = RawIndex::new(String::from("/work/test_pkg"), false, false).unwrap();
    assert_eq!(index.index_source("a.py", "__all__ = ['x']\n__all__ = ['y']\n"), Ok(true));
    assert_eq!(index.index_source("b.py", "__all__ = ['x']\n"), Ok(false));
}

#[test]
fn only_python_objects_are_referable() {
    let entry = |t: &str| InventoryEntry {
        name: String::from("x"),
        sphinx_type: String::from(t),
        location: String::from("x.html"),
    };
    assert!(should_include_reference(&entry("py:function")));
    assert!(!should_include_reference(&entry("std:label")));
    assert!(!should_include_reference(&entry("c:function")));
    assert!(!should_include_reference(&entry("py")));
}

#[test]
fn skipped_entries_are_not_stored_and_not_resolved() {
    let mut index = RawIndex::new(String::from("/work/test_pkg"), false, false).unwrap();
    let entries = vec![
        Ok(InventoryEntry {
            name: String::from("intro"),
            sphinx_type: String::from("std:doc"),
            location: String::from("intro.html"),
        }),
        Ok(InventoryEntry {
            name: String::from("os"),
            sphinx_type: String::from("py:module"),
            location: String::from("library/os.html"),
        }),
    ];
    index.add_external_inventory("https://docs.python.org/3/", Ok(entries)).unwrap();
    assert_eq!(index.external_object_store.len(), 1);
    assert!(index.external_object_store.contains_key(&String::from("os")));
}

#[test]
fn clash_stops_indexing_and_keeps_what_came_before() {
    let mut index = RawIndex::new(String::from("/work/test_pkg"), false, false).unwrap();
    let source = "class C:\n    def m(self):\n        pass\n    def m(self):\n        pass\n";
    let r = index.index_source("mod.py", source);
    assert_eq!(r, Err(IndexError::DuplicateKey(String::from("test_pkg.mod.C.m"))));
    assert_eq!(sorted_keys(&index), vec!["test_pkg.mod", "test_pkg.mod.C.m"]);
}
