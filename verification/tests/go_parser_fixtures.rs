use hotspots::discovery::{File, Lang};
use hotspots::parser::go::GoParser;
use hotspots::parser::{Container, Element, Error, Parser};
use hotspots::progress::Progress;

const FIXTURES: &str = "src/parser/fixtures/go";

const NO_FUNCTION: &str = "package main\n\nvar x = 1\n";

const ONE_FUNCTION: &str = "package main\n\nfunc FuncOne() {}\n";

const METHOD: &str = "package main\n\ntype x struct{}\n\nfunc (s x) FuncOne() {}\nfunc (s *x) FuncTwo() {\n\tnested := func() {}\n\tnested()\n}\nfunc (s *x) FuncThree() {}\n";

const MULTI_FUNCTIONS: &str =
    "package main\n\nfunc FuncTwo() {}\n\nfunc FuncThree() {\n\tnested := func() {}\n\tnested()\n}\n";

fn texts(list: &[&str]) -> Vec<Option<String>> {
    list.iter().map(|s| Some(s.to_string())).collect()
}

#[test]
fn go_no_file_added() {
    let mut p = GoParser::new(Container::new(100)).unwrap();
    let res = p.find_functions(&texts(&[]), &mut Progress::hidden());
    assert!(res.is_err());
    assert_eq!(res, Err(Error::NoFilesAdded));
}

#[test]
fn go_no_go_file() {
    let some_types = vec![Lang::Undefined, Lang::Rust, Lang::Lua];
    for t in some_types {
        let mut p = GoParser::new(Container::new(100)).unwrap();
        let f = File {
            path: format!("{FIXTURES}/no_function.1.go"),
            lang: t,
        };
        let res = p.add_file(f);
        assert!(res.is_err());
        assert_eq!(res, Err(Error::NotCompatible));
    }
}

#[test]
fn go_no_function_in_file() {
    let mut p = GoParser::new(Container::new(100)).unwrap();
    let f = File {
        path: format!("{FIXTURES}/no_function.1.go"),
        lang: Lang::Go,
    };
    p.add_file(f).unwrap();
    let res = p.find_functions(&texts(&[NO_FUNCTION]), &mut Progress::hidden());
    assert!(res.is_ok());
    assert!(res.unwrap().is_empty());
}

#[test]
fn go_returns_one_function_found() {
    let mut p = GoParser::new(Container::new(100)).unwrap();
    let path = format!("{FIXTURES}/one_function.1.go");
    let f = File {
        path: path.clone(),
        lang: Lang::Go,
    };
    p.add_file(f).unwrap();
    let res = p.find_functions(&texts(&[ONE_FUNCTION]), &mut Progress::hidden());
    assert!(res.is_ok());

    let res = res.unwrap();
    assert_eq!(res.len(), 1);
    let element = res.get(0).unwrap();
    let want = Element {
        name: "FuncOne".to_owned(),
        line: 3,
        file: path,
        index: 1,
    };
    assert_eq!(element, &want);
}

#[test]
fn go_can_identify_methods() {
    let mut p = GoParser::new(Container::new(100)).unwrap();
    let path = format!("{FIXTURES}/method.1.go");
    let f = File {
        path: path.clone(),
        lang: Lang::Go,
    };
    p.add_file(f).unwrap();
    let res = p.find_functions(&texts(&[METHOD]), &mut Progress::hidden());
    assert!(res.is_ok());

    let mut res = res.unwrap();
    let mut want = vec![
        Element {
            name: "(x) FuncOne".to_owned(),
            line: 5,
            file: path.clone(),
            index: 1,
        },
        Element {
            name: "(*x) FuncTwo".to_owned(),
            line: 6,
            file: path.clone(),
            index: 1,
        },
        Element {
            name: "nested".to_owned(),
            line: 7,
            file: path.clone(),
            index: 1,
        },
        Element {
            name: "(*x) FuncThree".to_owned(),
            line: 10,
            file: path,
            index: 1,
        },
    ];
    want.sort_by(|a, b| a.line.cmp(&b.line));
    res.sort_by(|a, b| a.line.cmp(&b.line));

    assert_eq!(want, res);
}

#[test]
fn go_returns_all_functions_in_files() {
    let mut p = GoParser::new(Container::new(100)).unwrap();
    let path = format!("{FIXTURES}/multi_functions.1.go");
    let f = File {
        path: path.clone(),
        lang: Lang::Go,
    };
    p.add_file(f).unwrap();
    let res = p.find_functions(&texts(&[MULTI_FUNCTIONS]), &mut Progress::hidden());
    assert!(res.is_ok());

    let mut res = res.unwrap();
    let mut want = vec![
        Element {
            name: "FuncTwo".to_owned(),
            line: 3,
            file: path.clone(),
            index: 1,
        },
        Element {
            name: "FuncThree".to_owned(),
            line: 5,
            file: path.clone(),
            index: 1,
        },
        Element {
            name: "nested".to_owned(),
            line: 6,
            file: path,
            index: 1,
        },
    ];
    want.sort_by(|a, b| a.name.cmp(&b.name));
    res.sort_by(|a, b| a.name.cmp(&b.name));

    assert_eq!(want, res);
}

#[test]
fn go_handles_multiple_files() {
    let mut p = GoParser::new(Container::new(100)).unwrap();
    let path1 = format!("{FIXTURES}/multi_functions.1.go");
    let path2 = format!("{FIXTURES}/one_function.1.go");
    let f1 = File {
        path: path1.clone(),
        lang: Lang::Go,
    };
    let f2 = File {
        path: path2.clone(),
        lang: Lang::Go,
    };
    p.add_file(f1).unwrap();
    p.add_file(f2).unwrap();
    let res = p.find_functions(
        &texts(&[MULTI_FUNCTIONS, ONE_FUNCTION]),
        &mut Progress::hidden(),
    );
    assert!(res.is_ok());

    let mut res = res.unwrap();
    let mut want = vec![
        Element {
            name: "FuncOne".to_owned(),
            line: 3,
            file: path2,
            index: 1,
        },
        Element {
            name: "FuncTwo".to_owned(),
            line: 3,
            file: path1.clone(),
            index: 1,
        },
        Element {
            name: "FuncThree".to_owned(),
            line: 5,
            file: path1.clone(),
            index: 1,
        },
        Element {
            name: "nested".to_owned(),
            line: 6,
            file: path1,
            index: 1,
        },
    ];
    want.sort_by(|a, b| a.name.cmp(&b.name));
    res.sort_by(|a, b| a.name.cmp(&b.name));

    assert_eq!(want, res);
}
