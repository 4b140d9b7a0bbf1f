use hotspots::discovery::{File, Lang};
use hotspots::parser::lua::LuaParser;
use hotspots::parser::{Container, Element, Error, Parser};
use hotspots::progress::Progress;

const FIXTURES: &str = "src/parser/fixtures/lua";

const NO_FUNCTION: &str = "local x = 1\nprint(x)\n";

const ONE_FUNCTION: &str = "-- one function\n\nfunction func_one() end\n";

const METHOD: &str = "local M = {}\n\nfunction M.method_one() end\n\nfunction M:method_two() end\n\nfunction M.method_three()\n  local function nested() end\nend\n";

const MULTI_FUNCTIONS: &str =
    "function func_five() end\nfunction func_six() end\n\nlocal M = {}\nfunction M.method_one() end\n";

fn texts(list: &[&str]) -> Vec<Option<String>> {
    list.iter().map(|s| Some(s.to_string())).collect()
}

fn element(name: &str, line: u64, file: &str) -> Element {
    Element {
        name: name.to_owned(),
        line,
        file: file.to_owned(),
        index: 0,
    }
}

#[test]
fn lua_no_file_added() {
    let mut p = LuaParser::new(Container::new(100)).unwrap();
    let res = p.find_functions(&texts(&[]), &mut Progress::hidden());
    assert!(res.is_err());
    assert_eq!(res, Err(Error::NoFilesAdded));
}

#[test]
fn no_lua_file() {
    let some_types = vec![Lang::Undefined, Lang::Rust, Lang::Go];
    for t in some_types {
        let mut p = LuaParser::new(Container::new(100)).unwrap();
        let f = File {
            path: format!("{FIXTURES}/no_file.1.lua"),
            lang: t,
        };
        let res = p.add_file(f);
        assert!(res.is_err());
    }
}

#[test]
fn lua_no_function_in_file() {
    let mut p = LuaParser::new(Container::new(100)).unwrap();
    let f = File {
        path: format!("{FIXTURES}/no_function.1.lua"),
        lang: Lang::Lua,
    };
    p.add_file(f).unwrap();
    let res = p.find_functions(&texts(&[NO_FUNCTION]), &mut Progress::hidden());
    assert!(res.is_ok());
    assert!(res.unwrap().is_empty());
}

#[test]
fn lua_returns_one_function_found() {
    let mut p = LuaParser::new(Container::new(100)).unwrap();
    let path = format!("{FIXTURES}/one_function.1.lua");
    let f = File {
        path: path.clone(),
        lang: Lang::Lua,
    };
    p.add_file(f).unwrap();
    let res = p.find_functions(&texts(&[ONE_FUNCTION]), &mut Progress::hidden());
    assert!(res.is_ok());

    let res = res.unwrap();
    assert_eq!(res.len(), 1);
    let got = res.get(0).unwrap();
    let want = Element {
        name: "func_one".to_owned(),
        line: 3,
        file: path,
        index: 0,
    };
    assert_eq!(got, &want);
}

#[test]
fn lua_can_identify_methods() {
    let mut p = LuaParser::new(Container::new(100)).unwrap();
    let path = format!("{FIXTURES}/method.1.lua");
    let f = File {
        path: path.clone(),
        lang: Lang::Lua,
    };
    p.add_file(f).unwrap();
    let res = p.find_functions(&texts(&[METHOD]), &mut Progress::hidden());
    assert!(res.is_ok());

    let mut res = res.unwrap();
    let mut want = vec![
        element("method_one", 3, &path),
        element("method_two", 5, &path),
        element("method_three", 7, &path),
        element("nested", 8, &path),
    ];
    want.sort_by(|a, b| a.line.cmp(&b.line));
    res.sort_by(|a, b| a.line.cmp(&b.line));

    assert_eq!(want, res);
}

#[test]
fn lua_returns_all_functions_in_files() {
    let mut p = LuaParser::new(Container::new(100)).unwrap();
    let path = format!("{FIXTURES}/multi_functions.1.lua");
    let f = File {
        path: path.clone(),
        lang: Lang::Lua,
    };
    p.add_file(f).unwrap();
    let res = p.find_functions(&texts(&[MULTI_FUNCTIONS]), &mut Progress::hidden());
    assert!(res.is_ok());

    let mut res = res.unwrap();
    let mut want = vec![
        element("func_five", 1, &path),
        element("func_six", 2, &path),
        element("method_one", 5, &path),
    ];
    want.sort_by(|a, b| a.name.cmp(&b.name));
    res.sort_by(|a, b| a.name.cmp(&b.name));

    assert_eq!(want, res);
}

#[test]
fn lua_handles_multiple_files() {
    let mut p = LuaParser::new(Container::new(100)).unwrap();
    let path1 = format!("{FIXTURES}/multi_functions.1.lua");
    let path2 = format!("{FIXTURES}/one_function.1.lua");
    let f1 = File {
        path: path1.clone(),
        lang: Lang::Lua,
    };
    let f2 = File {
        path: path2.clone(),
        lang: Lang::Lua,
    };
    p.add_file(f1).unwrap();
    p.add_file(f2).unwrap();
    let res = p.find_functions(
        &texts(&[MULTI_FUNCTIONS, ONE_FUNCTION]),
        &mut Progress::hidden(),
    );
    assert!(res.is_ok());

    let mut res = res.unwrap();
    let mut want = vec![
        element("func_five", 1, &path1),
        element("func_one", 3, &path2),
        element("func_six", 2, &path1),
        element("method_one", 5, &path1),
    ];
    want.sort_by(|a, b| a.name.cmp(&b.name));
    res.sort_by(|a, b| a.name.cmp(&b.name));

    assert_eq!(want, res);
}

#[test]
fn lua_finds_functions_assigned_to_names() {
    let mut p = LuaParser::new(Container::new(1)).unwrap();
    p.add_file(File {
        path: "m.lua".to_owned(),
        lang: Lang::Lua,
    })
    .unwrap();
    let source = "local M = {}\nM.first = function() end\nsecond = function() end\n";
    let res = p
        .find_functions(&texts(&[source]), &mut Progress::hidden())
        .unwrap();
    assert_eq!(
        res,
        vec![element("first", 2, "m.lua"), element("second", 3, "m.lua")]
    );
}
