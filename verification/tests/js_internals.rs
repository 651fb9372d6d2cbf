use tokenpress::js::emit::emit;
use tokenpress::js::parser::parse;
use tokenpress::js::verify::equivalent;
use tokenpress::error::Error;

fn render(name: &str, source: &str, strip_comments: bool) -> String {
    let program = parse(name, source).unwrap();
    emit(&program, strip_comments)
}

fn keep(name: &str, source: &str) -> String {
    render(name, source, false)
}

/// Parses `source` and runs `equivalent` against `code`, both under the
/// dialect implied by `name`.
fn check(name: &str, source: &str, code: &str) -> Result<(), Error> {
    let program = parse(name, source).unwrap();
    equivalent(&program, name, code)
}

fn ok(name: &str, source: &str) {
    let program = parse(name, source).unwrap();
    assert!(!program.canonical.is_empty(), "{name} produced an empty program");
}

#[test]
fn minifies_a_function() {
    let source="function add( a , b ) {\n    const sum = a + b;\n    return sum;\n}\n";
    assert_eq!(keep("a.js",source),"function add(a,b){const sum=a+b;return sum}");
}

#[test]
fn minifies_a_class() {
    let source="class Point {\n    constructor( x , y ) {\n        this.x = x;\n        this.y = y;\n    }\n\n    get length() {\n        return this.x;\n    }\n}\n";
    assert_eq!(keep("a.js",source),"class Point{constructor(x,y){this.x=x;this.y=y}get length(){return this.x}}");
}

#[test]
fn preserves_template_literal_whitespace() {
    let source="const t = `a   b\n   c ${ x }   d`;\n";
    assert_eq!(keep("a.js",source),"const t=`a   b\n   c ${x}   d`;");
}

#[test]
fn minifies_typescript_interface() {
    let source="interface Shape {\n    name : string ;\n    size ?: number ;\n}\n";
    assert_eq!(keep("a.ts",source),"interface Shape{name:string;size?:number;}");
}

#[test]
fn minifies_typescript_enum() {
    let source="enum Color {\n    Red = 1 ,\n    Green ,\n}\n";
    assert_eq!(keep("a.ts",source),"enum Color{Red=1,Green}");
}

#[test]
fn minifies_typescript_namespace() {
    let source="namespace Outer {\n    export const a : number = 1 ;\n}\n";
    assert_eq!(keep("a.ts",source),"namespace Outer{export const a:number=1}");
}

#[test]
fn minifies_declare_module() {
    let source="declare module \"pkg\" {\n    export function f( x : number ) : void ;\n}\n";
    assert_eq!(keep("a.d.ts",source),"declare module \"pkg\"{export function f(x:number):void;}");
}

#[test]
fn asi_hazards_survive_a_round_trip() {
    let source="const a = 1;\nconst b = 2;\n(function () { })();\n";
    let out=keep("a.js",source);
    assert_eq!(out,"const a=1;const b=2;(function(){})();");
    parse("a.js",&out).unwrap();
}

#[test]
fn leading_statement_comment_is_kept_and_stripped() {
    let source="// note\nconst a = 1;\n";
    assert_eq!(keep("a.js",source),"// note\nconst a=1;");
    assert_eq!(render("a.js",source,true),"const a=1;");
}

#[test]
fn emit_trailing_comments_are_dropped_even_when_kept() {
    let source="function f(a, b) {\n    return a + b; // tail\n}\n";
    assert_eq!(keep("a.js",source),"function f(a,b){return a+b}");
}

#[test]
fn jsx_text_is_verbatim_while_the_code_around_it_is_minified() {
    let source="function App() {\n    const x = 1;\n    return <div a=\"1\" b={ x } { ...p }><span>text  here</span>{ x + 1 }</div>;\n}\n";
    assert_eq!(keep("a.jsx",source),"function App(){const x=1;return<div a=\"1\" b={x}{...p}><span>text  here</span>{x+1}</div>}");
}

#[test]
fn jsx_fragments_and_nested_containers_round_trip() {
    let source="const el = <>\n  <p>a  b</p>\n  { items.map( ( i ) => <li>{ i }</li> ) }\n</>;\n";
    assert_eq!(keep("a.jsx",source),"const el=<>\n  <p>a  b</p>\n  {items.map(i=><li>{i}</li>)}\n</>;");
}

#[test]
fn jsx_whitespace_only_children_survive() {
    assert_eq!(keep("a.jsx","const a = <div>   </div>;\n"),"const a=<div>   </div>;");
    assert_eq!(keep("a.jsx","const a = <div>\n\n  x\n\n</div>;\n"),"const a=<div>\n\n  x\n\n</div>;");
}

#[test]
fn a_comment_only_expression_container_becomes_empty_when_stripped() {
    let source="const a = <div>{/* c */}</div>;\n";
    assert_eq!(keep("a.jsx",source),"const a=<div>{/* c */}</div>;");
    assert_eq!(render("a.jsx",source,true),"const a=<div>{}</div>;");
}

#[test]
fn a_trailing_comment_inside_a_container_is_dropped_even_when_kept() {
    let source="const a = <div>\n  {/* inner */}\n  {x /* tail */}\n</div>;\n";
    assert_eq!(keep("a.jsx",source),"const a=<div>\n  {/* inner */}\n  {x}\n</div>;");
}

#[test]
fn minifies_a_typed_tsx_component() {
    let source="interface Props {\n    name : string ;\n}\n\nconst Greet = ( p : Props ) : JSX.Element => <span title={ p.name }>Hi, { p.name }!</span>;\n";
    assert_eq!(keep("a.tsx",source),"interface Props{name:string;}const Greet=(p:Props):JSX.Element=><span title={p.name}>Hi, {p.name}!</span>;");
}

#[test]
fn tsx_type_parameters_keep_a_disambiguating_trailing_comma() {
    let source="function List< T >( items : T[] ) {\n    return <ul>{ items.map( ( i ) => <li>{ String( i ) }</li> ) }</ul>;\n}\n";
    assert_eq!(keep("a.tsx",source),"function List<T,>(items:T[]){return<ul>{items.map(i=><li>{String(i)}</li>)}</ul>}");
}

#[test]
fn formatting_only_differences_are_equivalent() {
    assert!(check("a.js","function add( a , b ) {\n    return a + b;\n}\n","function add(a,b){return a+b}",).is_ok());
}

#[test]
fn semantic_change_is_rejected() {
    let err=check("a.js","const a = 1 + 2;\n","const a=1-2;").unwrap_err();
    assert!(err.to_string().contains("differs from input"),"{err:?}");
}

#[test]
fn dropped_typescript_annotation_is_rejected() {
    let err=check("a.ts","const a: number = 1;\n","const a=1;").unwrap_err();
    assert!(err.to_string().contains("differs from input"),"{err:?}");
}

#[test]
fn unparsable_output_is_rejected_by_the_equivalence_check() {
    let err=check("a.js","const a = 1;\n","function (").unwrap_err();
    assert!(err.to_string().contains("failed to re-parse"),"{err:?}");
}

#[test]
fn comment_loss_is_not_caught_by_the_verifier() {
    assert!(check("a.js","// note\nconst a = 1;\n","const a=1;").is_ok());
}

#[test]
fn jsx_formatting_only_differences_are_equivalent() {
    assert!(check("a.jsx","const el = <>\n  <div className=\"box\" id={ id } { ...rest }>hi  there</div>\n</>;\n","const el=<>\n  <div className=\"box\" id={id}{...rest}>hi  there</div>\n</>;",).is_ok());
}

#[test]
fn a_changed_jsx_attribute_is_rejected() {
    let err=check("a.jsx","const a = <div id={ x } />;\n","const a=<div id={y}/>;",).unwrap_err();
    assert!(err.to_string().contains("differs from input"),"{err:?}");
}

#[test]
fn compressed_jsx_text_is_rejected() {
    let err=check("a.jsx","const a = <div>a  b</div>;\n","const a=<div>a b</div>;",).unwrap_err();
    assert!(err.to_string().contains("differs from input"),"{err:?}");
}

#[test]
fn emptying_a_comment_only_container_passes_the_equivalence_check() {
    assert!(check("a.jsx","const a = <div>{/* c */}</div>;\n","const a=<div>{}</div>;").is_ok());
}

#[test]
fn parses_plain_javascript() {
    ok("a.js","const a = 1;\n");
}

#[test]
fn parses_typescript_interface() {
    ok("a.ts","interface A { b: string }\n");
}

#[test]
fn parses_jsx() {
    ok("a.jsx","const a = <div className=\"x\">hi</div>;\n");
}

#[test]
fn parses_tsx() {
    ok("a.tsx","const a = (b: string): JSX.Element => <p>{b}</p>;\n",);
}

#[test]
fn parses_declaration_file() {
    ok("a.d.ts","declare function f(x: number): void;\n");
}

#[test]
fn parses_module_and_commonjs_extensions() {
    ok("a.mjs","export const a = 1;\n");
    ok("a.cjs","module.exports = 1;\n");
    ok("a.mts","export const a: number = 1;\n");
    ok("a.cts","const a: number = 1;\n");
}

#[test]
fn rejects_unknown_extension() {
    let err=parse("notes.txt","const a = 1;\n").unwrap_err();
    assert_eq!(err.to_string(),"unsupported language for path: notes.txt");
}

#[test]
fn rejects_syntax_error_that_panics_the_parser() {
    let err=parse("broken.js","function (").unwrap_err();
    let message=err.to_string();
    assert!(message.starts_with("parse error: broken.js:"),"{message}");
    assert!(message.len()>"parse error: broken.js: ".len(),"{message}");
}

#[test]
fn rejects_recoverable_error_without_panic() {
    let err=parse("toplevel.js","return 1;\n").unwrap_err();
    let message=err.to_string();
    assert!(message.starts_with("parse error: toplevel.js:"),"{message}");
    assert!(message.contains("return"),"{message}");
}
