use hotspots::args::{Command, Level, Opt};
use hotspots::discovery::{Entry, File, Lang};
use hotspots::parser::{Element, Error, Parser};
use hotspots::pipeline::{
    discoverer, files_found, filter_names, root_prefix, settle, Extractors, Failure, Sources, Step,
};
use hotspots::progress::Progress;

fn file(path: &str) -> Entry {
    Entry {
        path: Some(path.to_owned()),
        is_dir: false,
    }
}

#[test]
fn options_without_arguments() {
    let opt = Opt::new();
    assert_eq!(opt.total, 50);
    assert_eq!(opt.skip, 0);
    assert_eq!(opt.log_level, 0);
    assert!(opt.prefix.is_empty());
    assert!(opt.invert_match.is_empty());
    assert!(opt.exclude_func.is_empty());
    assert_eq!(opt.root, ".");
    assert_eq!(opt.sub_commands, None);
    assert_ne!(opt.sub_commands, Some(Command::Version));
}

#[test]
fn levels_of_logging() {
    let mut opt = Opt::new();
    assert_eq!(opt.level(), Level::Off);
    opt.log_level = 1;
    assert_eq!(opt.level(), Level::Error);
    opt.log_level = 2;
    assert_eq!(opt.level(), Level::Warn);
    opt.log_level = 3;
    assert_eq!(opt.level(), Level::Info);
    opt.log_level = 4;
    assert_eq!(opt.level(), Level::Debug);
    opt.log_level = 255;
    assert_eq!(opt.level(), Level::Debug);
}

#[test]
fn prefixes_stand_behind_the_root() {
    assert_eq!(root_prefix("src"), "./src");
    assert_eq!(root_prefix(""), "./");
    assert_eq!(root_prefix("./src"), "././src");
    assert_eq!(root_prefix("b\u{00e4}r/x"), "./b\u{00e4}r/x");
}

#[test]
fn the_options_set_up_discovery() {
    let mut opt = Opt::new();
    opt.prefix = vec!["src".to_owned(), "lib".to_owned()];
    opt.invert_match = vec!["_test".to_owned()];
    let d = discoverer(&opt);
    let entries = vec![
        file("./src/a.go"),
        file("./src/a_test.go"),
        file("./lib/b.rs"),
        file("./docs/c.lua"),
        file("src/d.go"),
    ];
    let found = d.discover(&entries).unwrap();
    assert_eq!(
        found,
        vec![
            File {
                path: "./src/a.go".to_owned(),
                lang: Lang::Go
            },
            File {
                path: "./lib/b.rs".to_owned(),
                lang: Lang::Rust
            },
        ]
    );
    let all = discoverer(&Opt::new()).discover(&entries).unwrap();
    assert_eq!(all.len(), 5);
}

#[test]
fn each_file_goes_to_its_extractor() {
    let mut all = Extractors::new(&Opt::new()).unwrap();
    let files = vec![
        File {
            path: "a.go".to_owned(),
            lang: Lang::Go,
        },
        File {
            path: "notes.txt".to_owned(),
            lang: Lang::Undefined,
        },
        File {
            path: "b.rs".to_owned(),
            lang: Lang::Rust,
        },
        File {
            path: "c.lua".to_owned(),
            lang: Lang::Lua,
        },
        File {
            path: "d.go".to_owned(),
            lang: Lang::Go,
        },
        File {
            path: "Makefile".to_owned(),
            lang: Lang::Undefined,
        },
    ];
    let unsupported = all.dispatch(files);
    assert_eq!(unsupported, vec!["notes.txt", "Makefile"]);
    let go: Vec<&str> = all.go.files().unwrap().iter().map(|f| f.path.as_str()).collect();
    assert_eq!(go, vec!["a.go", "d.go"]);
    let rust: Vec<&str> = all.rust.files().unwrap().iter().map(|f| f.path.as_str()).collect();
    assert_eq!(rust, vec!["b.rs"]);
    let lua: Vec<&str> = all.lua.files().unwrap().iter().map(|f| f.path.as_str()).collect();
    assert_eq!(lua, vec!["c.lua"]);
}

#[test]
fn nothing_to_dispatch_leaves_the_extractors_empty() {
    let mut all = Extractors::new(&Opt::new()).unwrap();
    assert!(all.dispatch(vec![]).is_empty());
    assert_eq!(all.go.files(), Err(Error::NoFilesAdded));
    assert_eq!(all.rust.files(), Err(Error::NoFilesAdded));
    assert_eq!(all.lua.files(), Err(Error::NoFilesAdded));
}

#[test]
fn excluded_functions_reach_every_extractor() {
    let mut opt = Opt::new();
    opt.exclude_func = vec!["Test".to_owned(), "mock".to_owned()];
    let mut all = Extractors::new(&opt).unwrap();
    assert!(all.go.filter("TestRun"));
    assert!(all.rust.filter("a_mock"));
    assert!(all.lua.filter("mockTest"));
    assert!(!all.go.filter("Run"));
    assert!(!all.rust.filter("test"));

    all.dispatch(vec![File {
        path: "x.go".to_owned(),
        lang: Lang::Go,
    }]);
    let source = "package x\n\nfunc TestRun() {}\nfunc Run() {}\nfunc mocked() {}\n".to_owned();
    let mut pb = Progress::new(0);
    let found = all.go.find_functions(&vec![Some(source)], &mut pb).unwrap();
    let names: Vec<&str> = found.iter().map(|e| e.name.as_str()).collect();
    assert_eq!(names, vec!["Run"]);
    assert_eq!(pb.length(), Some(1));
}

#[test]
fn filters_are_added_in_order() {
    let mut all = Extractors::new(&Opt::new()).unwrap();
    assert!(!all.lua.filter("anything"));
    filter_names(&mut all.lua, &vec!["any".to_owned()]);
    assert!(all.lua.filter("anything"));
    assert!(!all.lua.filter("thing"));
    filter_names(&mut all.lua, &vec![]);
    assert!(!all.lua.filter("thing"));
}

#[test]
fn what_an_outcome_means() {
    let e = Element {
        name: "f".to_owned(),
        file: "x.go".to_owned(),
        line: 1,
        index: 1,
    };
    assert_eq!(settle(Ok(vec![e.clone()])), Step::Rows(vec![e]));
    assert_eq!(settle(Ok(vec![])), Step::Rows(vec![]));
    assert_eq!(settle(Err(Error::NoFilesAdded)), Step::Skip(Error::NoFilesAdded));
    assert_eq!(
        settle(Err(Error::ParseFile("no".to_owned()))),
        Step::Skip(Error::ParseFile("no".to_owned()))
    );
    assert_eq!(settle(Err(Error::NotCompatible)), Step::Abort(Error::NotCompatible));
    assert_eq!(
        settle(Err(Error::TSQuery("bad".to_owned()))),
        Step::Abort(Error::TSQuery("bad".to_owned()))
    );
}

#[test]
fn an_empty_tree_ends_the_run() {
    let root = Entry {
        path: Some("/tmp/empty".to_owned()),
        is_dir: true,
    };
    let found = discoverer(&Opt::new()).discover(&vec![root]);
    assert_eq!(files_found(found), Err(Failure::NoFiles));
    let found = discoverer(&Opt::new()).discover(&vec![file("./a.go")]);
    assert_eq!(
        files_found(found),
        Ok(vec![File {
            path: "./a.go".to_owned(),
            lang: Lang::Go
        }])
    );
}

fn lang_file(path: &str, lang: Lang) -> File {
    File {
        path: path.to_owned(),
        lang,
    }
}

#[test]
fn the_extractors_search_in_a_fixed_order() {
    let mut all = Extractors::new(&Opt::new()).unwrap();
    all.dispatch(vec![
        lang_file("z.lua", Lang::Lua),
        lang_file("y.rs", Lang::Rust),
        lang_file("x.go", Lang::Go),
        lang_file("w.lua", Lang::Lua),
    ]);
    let sources = Sources {
        go: vec![Some("package x\n\nfunc (r *T) Run() {}\n".to_owned())],
        rust: vec![Some("fn one() {}\nfn two() {}\n".to_owned())],
        lua: vec![
            Some("function first() end\n".to_owned()),
            Some("\nfunction second() end\n".to_owned()),
        ],
    };
    let mut pb = Progress::new(0);
    let found = all.find_functions(&sources, &mut pb).unwrap();
    let got: Vec<(&str, u64, &str)> = found
        .iter()
        .map(|e| (e.file.as_str(), e.line, e.name.as_str()))
        .collect();
    assert_eq!(
        got,
        vec![
            ("x.go", 3, "(*T) Run"),
            ("y.rs", 1, "one"),
            ("y.rs", 2, "two"),
            ("z.lua", 1, "first"),
            ("w.lua", 2, "second"),
        ]
    );
    assert_eq!(pb.length(), Some(5));
    assert_eq!(pb.position(), 0);

    let again = all.find_functions(&sources, &mut Progress::hidden()).unwrap();
    assert_eq!(again, found);
}

#[test]
fn an_extractor_without_files_gives_nothing() {
    let mut all = Extractors::new(&Opt::new()).unwrap();
    all.dispatch(vec![lang_file("y.rs", Lang::Rust)]);
    let sources = Sources {
        go: vec![Some("package x\n\nfunc Lost() {}\n".to_owned())],
        rust: vec![Some("fn kept() {}\n".to_owned())],
        lua: vec![],
    };
    let mut pb = Progress::new(2);
    let found = all.find_functions(&sources, &mut pb).unwrap();
    assert_eq!(
        found,
        vec![Element {
            name: "kept".to_owned(),
            file: "y.rs".to_owned(),
            line: 1,
            index: 0
        }]
    );
    assert_eq!(pb.length(), Some(3));

    let mut none = Extractors::new(&Opt::new()).unwrap();
    let mut pb = Progress::new(2);
    assert_eq!(none.find_functions(&sources, &mut pb), Ok(vec![]));
    assert_eq!(pb, Progress::new(2));
}

#[test]
fn what_the_errors_say() {
    assert_eq!(
        Error::NotCompatible.message(),
        "File is not compatible with this parser"
    );
    assert_eq!(Error::NoFilesAdded.message(), "No files have added");
    assert_eq!(
        Error::TSQuery("Query error at 1:2. Invalid node type x".to_owned()).message(),
        "Query error at 1:2. Invalid node type x"
    );
    assert_eq!(
        Error::ParseFile("Can't parse queries".to_owned()).message(),
        "Can't parse file: Can't parse queries"
    );
    assert_eq!(Error::ParseFile(String::new()).message(), "Can't parse file: ");
    assert_eq!(
        hotspots::insight::Error::NotGitRepo.message(),
        "Not a git directory"
    );
    assert_eq!(
        hotspots::insight::Error::UTF8.message(),
        "The output of git is not valid UTF-8"
    );
    assert_eq!(
        hotspots::insight::Error::IO("no such file".to_owned()).message(),
        "no such file"
    );
    assert_eq!(
        Failure::NoFiles.message(),
        "No files found in the current directory"
    );
    assert_eq!(
        Failure::Inspector(hotspots::insight::Error::NotGitRepo).message(),
        "Not a git directory"
    );
    assert_eq!(
        Failure::Extractor(Error::NoFilesAdded).message(),
        "No files have added"
    );
}

#[test]
fn the_extractors_are_made_with_their_grammars() {
    let mut opt = Opt::new();
    opt.exclude_func = vec!["Test".to_owned()];
    let all = Extractors::with_grammars(
        &opt,
        tree_sitter_go::language(),
        tree_sitter_rust::language(),
        tree_sitter_lua::language(),
    )
    .unwrap();
    assert_eq!(all.go.language(), tree_sitter_go::language());
    assert_eq!(all.rust.language(), tree_sitter_rust::language());
    assert_eq!(all.lua.language(), tree_sitter_lua::language());
    assert!(all.go.filter("TestRun") && all.rust.filter("TestRun") && all.lua.filter("TestRun"));
    assert_eq!(all.go.files(), Err(Error::NoFilesAdded));

    let swapped = Extractors::with_grammars(
        &opt,
        tree_sitter_go::language(),
        tree_sitter_lua::language(),
        tree_sitter_rust::language(),
    );
    assert!(matches!(swapped.map(|_| ()), Err(Error::TSQuery(_))));
}

#[test]
fn two_runs_find_the_same() {
    let mut opt = Opt::new();
    opt.exclude_func = vec!["two".to_owned()];
    let files = || {
        vec![
            lang_file("z.lua", Lang::Lua),
            lang_file("y.rs", Lang::Rust),
            lang_file("x.go", Lang::Go),
        ]
    };
    let sources = Sources {
        go: vec![Some("package x\n\nfunc (r *T) Run() {}\nfunc two() {}\n".to_owned())],
        rust: vec![Some("fn one() {}\nfn two() {}\n".to_owned())],
        lua: vec![Some("function first() end\n".to_owned())],
    };
    let mut first = Extractors::new(&opt).unwrap();
    first.dispatch(files());
    let mut second = Extractors::new(&opt).unwrap();
    second.dispatch(files());
    let a = first.find_functions(&sources, &mut Progress::hidden()).unwrap();
    let b = second.find_functions(&sources, &mut Progress::new(7)).unwrap();
    assert_eq!(a, b);
    let triples: Vec<(&str, u64, &str)> = a
        .iter()
        .map(|e| (e.file.as_str(), e.line, e.name.as_str()))
        .collect();
    assert_eq!(
        triples,
        vec![("x.go", 3, "(*T) Run"), ("y.rs", 1, "one"), ("z.lua", 1, "first")]
    );
}
