use rustpython_parser::source_code::OneIndexed;
use rustpython_parser::{parse, Mode};
use snakedown::indexing::content::ContentNode;
use snakedown::parsing::python::module::extract_module_documentation;
use snakedown::parsing::python::syntax::parse_python_str;

type TestResult = Result<(), Box<dyn std::error::Error>>;

fn test_python_class() -> &'static str {
    r#"
class Greeter:
    '''
    this is a class docstring.

        this line has exactly one indent!



    '''

    class_var = "whatever"

    def greet(self):
        print("Hello, world!")
        def inner():
            print("this is a closure!")
        inner()
    "#
}

#[test]
fn parse_test_python_class() -> TestResult {
    let content = test_python_class();
    let program = parse_python_str(content)?;
    let documentation = extract_module_documentation(&program, false, false, content, String::new());
    assert_eq!(documentation.functions.len(), 0);
    assert_eq!(documentation.classes.len(), 1);

    let class = documentation.classes.first().unwrap();

    assert_eq!(class.first_line, OneIndexed::from_zero_indexed(1).to_usize());

    assert_eq!(class.methods.len(), 1);

    let method = class.methods.first().unwrap();

    assert_eq!(method.first_line, OneIndexed::from_zero_indexed(13).to_usize());

    Ok(())
}

#[test]
fn parse_test_python_class_docstring() -> TestResult {
    let program = parse_python_str(test_python_class())?;

    let documentation =
        extract_module_documentation(&program, false, false, test_python_class(), String::new());

    let class = documentation.classes.first().unwrap();

    let docstring = class.docstring.clone();
    assert_eq!(class.first_line, OneIndexed::from_zero_indexed(1).to_usize());

    assert_eq!(
        docstring,
        Some(vec![ContentNode::Text(String::from(
            r"
this is a class docstring.

    this line has exactly one indent!



"
        ))])
    );
    Ok(())
}

fn test_python_func_no_types() -> &'static str {
    "
def is_odd(i):
    return bool(i & 1)
        "
}
fn test_python_async_func_no_types() -> &'static str {
    "async def is_odd(i):
    return bool(i & 1)
        "
}

fn test_python_async_func_docstring() -> &'static str {
    "async def is_odd(i):
    '''
    Determine whether a number is odd.

    Returns
    -------
        bool: True iff input number is odd
    '''
    return bool(i & 1)
        "
}
fn test_python_func_docstring() -> &'static str {
    "def is_odd(i):
    '''
    Determine whether a number is odd.

    Returns
    -------
        bool: True iff input number is odd
    '''
    return bool(i & 1)
        "
}

fn test_python_lambda() -> &'static str {
    "
def is_odd(i):
    inner = lambda x: x % 2
    return inner(i)
        "
}
fn test_python_closure() -> &'static str {
    "
def is_odd(i):
    def inner_func(i: float) -> bool:
        return bool(i&0)

    return not inner_func(i)
        "
}
fn test_python_no_func() -> &'static str {
    "
# this is a comment
a = 4
b = a + 6
assert b > 0
f = lambda a,b: [*a, *b]
        "
}
fn test_python_func_with_types() -> &'static str {
    "
def is_even(i: int) -> bool:
    return bool(i & 1)

        "
}
fn test_python_func_annotated() -> &'static str {
    "
def return_none(foo: str, bar, *args, unused: Dict[Any, str] = None) -> 4+9:
    return 22/7
        "
}

fn document(source: &str) -> Result<snakedown::parsing::python::module::ModuleDocumentation, Box<dyn std::error::Error>> {
    let program = parse_python_str(source)?;
    Ok(extract_module_documentation(&program, false, false, source, String::from("foo")))
}

#[test]
fn parse_doesnt_extract_lambda() -> TestResult {
    let documentation = document(test_python_lambda())?;
    assert_eq!(documentation.functions.len(), 1);
    assert_eq!(documentation.classes.len(), 0);
    Ok(())
}

#[test]
fn parse_test_python_async_func() -> TestResult {
    let documentation = document(test_python_async_func_no_types())?;
    assert_eq!(documentation.functions.len(), 1);
    assert_eq!(documentation.classes.len(), 0);
    Ok(())
}

#[test]
fn parse_doesnt_extract_closure() -> TestResult {
    let documentation = document(test_python_closure())?;
    assert_eq!(documentation.functions.len(), 1);
    assert_eq!(documentation.classes.len(), 0);
    Ok(())
}

#[test]
fn parse_test_python_func_no_types() -> TestResult {
    let documentation = document(test_python_func_no_types())?;
    assert_eq!(documentation.functions.len(), 1);
    assert_eq!(documentation.classes.len(), 0);
    Ok(())
}

#[test]
fn parse_test_python_no_func() -> TestResult {
    let documentation = document(test_python_no_func())?;
    assert_eq!(documentation.functions.len(), 0);
    assert_eq!(documentation.classes.len(), 0);
    Ok(())
}

#[test]
fn parse_test_python_func_dict_type() -> TestResult {
    let documentation = document(test_python_func_annotated())?;
    assert_eq!(documentation.functions.len(), 1);
    assert_eq!(documentation.classes.len(), 0);
    Ok(())
}

#[test]
fn parse_test_python_func_with_types() -> TestResult {
    let documentation = document(test_python_func_with_types())?;
    assert_eq!(documentation.functions.len(), 1);
    assert_eq!(documentation.classes.len(), 0);
    Ok(())
}

#[test]
fn parse_test_python_func_docstring() -> TestResult {
    let documentation = document(test_python_func_docstring())?;
    assert_eq!(documentation.functions.len(), 1);
    assert_eq!(documentation.classes.len(), 0);
    Ok(())
}

#[test]
fn parse_test_python_async_function_docstring() -> TestResult {
    let documentation = document(test_python_async_func_docstring())?;
    let function = documentation.functions.first().unwrap();
    let docstring = function.docstring.clone();
    assert_eq!(
        docstring,
        Some(vec![ContentNode::Text(String::from(
            r"
Determine whether a number is odd.

Returns
-------
    bool: True iff input number is odd
"
        ))])
    );
    Ok(())
}

#[test]
fn parse_test_python_function_docstring() -> TestResult {
    let documentation = document(test_python_func_docstring())?;
    let function = documentation.functions.first().unwrap();
    let docstring = function.docstring.clone();
    assert_eq!(
        docstring,
        Some(vec![ContentNode::Text(String::from(
            r"
Determine whether a number is odd.

Returns
-------
    bool: True iff input number is odd
"
        ))])
    );
    Ok(())
}

#[test]
fn test_doc_extraction_interactive_module() -> TestResult {
    let expr_str = "1 + 2";
    let expr = parse(expr_str, Mode::Expression, "<embedded>")?;
    let docs = extract_module_documentation(&expr, false, false, expr_str, String::from("foo"));

    assert_eq!(docs.docstring, None);
    assert_eq!(docs.functions.len(), 0);
    assert_eq!(docs.classes.len(), 0);

    Ok(())
}

#[test]
fn test_doc_extraction_skip_undoc_and_private_module() -> TestResult {
    let expr_str = r#"
def foo():
    """asdf"""
    pass

def _bar():
    """asdf"""
    pass

def baz():
    pass

class Cls:
    """normal class"""


class _Cls:
    """normal class"""

class UndocClass:
    pass
"#;
    let expr = parse(expr_str, Mode::Module, "<embedded>")?;
    let docs = extract_module_documentation(&expr, true, true, expr_str, String::from("foo"));

    assert_eq!(docs.docstring, None);
    assert_eq!(docs.functions.len(), 1);
    assert_eq!(docs.classes.len(), 1);

    Ok(())
}

#[test]
fn test_doc_extraction_exports() -> TestResult {
    let expr_str = r#"

__all__ = ["a", "b", "c", "d", "foo", 4 , 5]

a = 1
b = 3
c,d, foo = *bar
"#;
    let expr = parse(expr_str, Mode::Module, "<embedded>")?;
    let docs = extract_module_documentation(&expr, true, true, expr_str, String::from("foo"));

    assert_eq!(docs.exports.map(|e| e.len()), Some(5));

    Ok(())
}

#[test]
fn test_doc_extraction_multiple_exports() -> TestResult {
    let expr_str = r#"

__all__ = ["a"]
__all__ = ["b"]

a = 1
b = 3
"#;
    let expr = parse(expr_str, Mode::Module, "<embedded>")?;
    let docs = extract_module_documentation(&expr, true, true, expr_str, String::from("foo"));

    assert_eq!(docs.exports, Some(vec![String::from("b")]));
    assert!(docs.exports_redefined);

    Ok(())
}

#[test]
fn test_doc_extraction_export_non_list() -> TestResult {
    let expr_str = r#"

__all__ = "a"

a = 1
b = 3
"#;
    let expr = parse(expr_str, Mode::Module, "<embedded>")?;
    let docs = extract_module_documentation(&expr, true, true, expr_str, String::from("foo"));

    assert_eq!(docs.exports, None);
    assert!(!docs.exports_redefined);

    Ok(())
}

#[test]
fn module_docstring_and_source_file() -> TestResult {
    let source = "'''Top [[pkg.f]].'''\n\ndef f():\n    '''Doc.'''\n";
    let program = parse_python_str(source)?;
    let docs = extract_module_documentation(&program, false, false, source, String::from("pkg/m.py"));
    assert_eq!(docs.source_file, "pkg/m.py");
    assert_eq!(docs.functions[0].source_file, "pkg/m.py");
    assert_eq!(docs.functions[0].first_line, 3);
    assert_eq!(docs.functions[0].last_line, 4);
    assert_eq!(
        docs.docstring,
        Some(vec![
            ContentNode::Text("Top ".to_string()),
            ContentNode::Reference(snakedown::indexing::content::Reference::new("pkg.f".to_string(), None)),
            ContentNode::Text(".".to_string()),
        ])
    );
    Ok(())
}

#[test]
fn syntax_errors_are_reported() {
    assert!(parse_python_str("def (:\n").is_err());
}
