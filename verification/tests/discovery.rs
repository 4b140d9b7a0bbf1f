use hotspots::discovery::{hidden, is_project_file, language_of, Discovery, Entry, File, Lang};

const ROOT: &str = "/tmp/project";

fn dir(path: &str) -> Entry {
    Entry {
        path: Some(path.to_owned()),
        is_dir: true,
    }
}

fn file(path: &str) -> Entry {
    Entry {
        path: Some(path.to_owned()),
        is_dir: false,
    }
}

fn under(name: &str) -> String {
    format!("{ROOT}/{name}")
}

fn found(name: &str, lang: Lang) -> File {
    File {
        path: under(name),
        lang,
    }
}

#[test]
fn empty_path() {
    let d = Discovery::default();
    assert!(d.discover(&vec![dir(ROOT)]).is_none());
    assert!(d.discover(&vec![]).is_none());
}

#[test]
fn ignores_hidden_files() {
    let entries = vec![
        dir(ROOT),
        file(&under("a.txt")),
        file(&under("b.txt")),
        file(&under(".nope.txt")),
    ];
    let f1 = found("a.txt", Lang::Undefined);
    let f2 = found("b.txt", Lang::Undefined);
    let want = vec![f1, f2];

    let d = Discovery::default();
    let res = d.discover(&entries);
    assert!(res.is_some());

    let mut res = res.unwrap();
    res.sort_by(|a, b| a.path.cmp(&b.path));
    assert_eq!(res, want);
}

#[test]
fn discovers_recursively() {
    let entries = vec![
        dir(ROOT),
        file(&under("a.txt")),
        dir(&under("b")),
        file(&under("b/c.txt")),
    ];
    let f1 = found("a.txt", Lang::Undefined);
    let f2 = found("b/c.txt", Lang::Undefined);
    let want = vec![f1, f2];

    let d = Discovery::default();
    let mut res = d.discover(&entries).unwrap();
    res.sort_by(|a, b| a.path.cmp(&b.path));
    assert_eq!(res, want);
    assert!(res[1].path.contains("b/"));
}

#[test]
fn discovers_language() {
    let entries = vec![
        dir(ROOT),
        file(&under("file1.go")),
        file(&under("file2.rs")),
        file(&under("file3.lua")),
    ];
    let f1 = found("file1.go", Lang::Go);
    let f2 = found("file2.rs", Lang::Rust);
    let f3 = found("file3.lua", Lang::Lua);

    let want = vec![f1, f2, f3];

    let d = Discovery::default();
    let mut res = d.discover(&entries).unwrap();
    res.sort_by(|a, b| a.path.cmp(&b.path));
    assert_eq!(res, want);
}

#[test]
fn keeps_the_order_of_the_walk() {
    let entries = vec![file("./z.go"), file("./a.rs"), file("./m.lua")];
    let res = Discovery::default().discover(&entries).unwrap();
    let paths: Vec<&str> = res.iter().map(|f| f.path.as_str()).collect();
    assert_eq!(paths, vec!["./z.go", "./a.rs", "./m.lua"]);
}

#[test]
fn keeps_to_prefixes() {
    let entries = vec![
        file("./src/a.go"),
        file("./lib/b.go"),
        file("./docs/c.go"),
        file("./srcs/d.go"),
    ];
    let mut d = Discovery::default();
    d.with_prefix("./src".to_owned());
    d.with_prefix("./lib/".to_owned());
    let res = d.discover(&entries).unwrap();
    let paths: Vec<&str> = res.iter().map(|f| f.path.as_str()).collect();
    assert_eq!(paths, vec!["./src/a.go", "./lib/b.go", "./srcs/d.go"]);
}

#[test]
fn leaves_out_paths_that_hold_a_text() {
    let entries = vec![
        file("./src/a.go"),
        file("./vendor/b.go"),
        file("./src/a_test.go"),
    ];
    let mut d = Discovery::default();
    d.not_contains("vendor".to_owned());
    d.not_contains("_test".to_owned());
    let res = d.discover(&entries).unwrap();
    assert_eq!(
        res,
        vec![File {
            path: "./src/a.go".to_owned(),
            lang: Lang::Go
        }]
    );
}

#[test]
fn prefixes_and_exclusions_together() {
    let entries = vec![file("./src/a.go"), file("./src/gen/b.go"), file("./c.go")];
    let mut d = Discovery::default();
    d.with_prefix("./src".to_owned());
    d.not_contains("gen".to_owned());
    let res = d.discover(&entries).unwrap();
    assert_eq!(res.len(), 1);
    assert_eq!(res[0].path, "./src/a.go");

    let mut none = Discovery::default();
    none.with_prefix("./nowhere".to_owned());
    assert!(none.discover(&entries).is_none());
}

#[test]
fn empty_exclusion_leaves_out_everything() {
    let mut d = Discovery::default();
    d.not_contains(String::new());
    assert!(d.discover(&vec![file("./a.go")]).is_none());
}

#[test]
fn drops_entries_without_a_text_path() {
    let entries = vec![
        Entry {
            path: None,
            is_dir: false,
        },
        file("./a.go"),
    ];
    let res = Discovery::default().discover(&entries).unwrap();
    assert_eq!(res.len(), 1);
    assert!(!is_project_file(&entries[0]));
    assert!(is_project_file(&entries[1]));
}

#[test]
fn hidden_goes_by_the_last_part() {
    assert!(hidden(".git"));
    assert!(hidden("./.gitignore"));
    assert!(hidden("/a/b/.c"));
    assert!(!hidden("./.git/config"));
    assert!(!hidden("./a.b"));
    assert!(!hidden(""));
    assert!(!hidden("dir/"));
    assert!(hidden("."));
}

#[test]
fn directories_are_no_project_files() {
    assert!(!is_project_file(&dir("./src")));
    assert!(!is_project_file(&file("./src/.hidden.go")));
    assert!(is_project_file(&file("./src/shown.go")));
}

#[test]
fn hidden_directories_do_not_hide_their_files() {
    let res = Discovery::default()
        .discover(&vec![dir("./.cfg"), file("./.cfg/tool.lua")])
        .unwrap();
    assert_eq!(
        res,
        vec![File {
            path: "./.cfg/tool.lua".to_owned(),
            lang: Lang::Lua
        }]
    );
}

#[test]
fn tags_name_languages() {
    assert_eq!(Lang::from("go"), Lang::Go);
    assert_eq!(Lang::from("rust"), Lang::Rust);
    assert_eq!(Lang::from("lua"), Lang::Lua);
    assert_eq!(Lang::from("python"), Lang::Undefined);
    assert_eq!(Lang::from(""), Lang::Undefined);
    assert_eq!(Lang::from("Go"), Lang::Undefined);
    assert_eq!(Lang::from("rs"), Lang::Undefined);
}

#[test]
fn language_goes_by_the_extension() {
    assert_eq!(language_of("main.go"), Lang::Go);
    assert_eq!(language_of("./src/lib.rs"), Lang::Rust);
    assert_eq!(language_of("init.lua"), Lang::Lua);
    assert_eq!(language_of("script.py"), Lang::Undefined);
    assert_eq!(language_of("Makefile"), Lang::Undefined);
    assert_eq!(language_of("go"), Lang::Undefined);
}

#[test]
fn texts_are_joined() {
    assert_eq!(hotspots::text::concat("ab", "cd"), "abcd");
    assert_eq!(hotspots::text::concat("", "cd"), "cd");
    assert_eq!(hotspots::text::concat("ab", ""), "ab");
    assert_eq!(hotspots::text::concat("\u{00e4}", "\u{4e2d}"), "\u{00e4}\u{4e2d}");
    assert_eq!(hotspots::text::to_chars("a\u{00e4}\u{4e2d}"), vec!['a', '\u{00e4}', '\u{4e2d}']);
    assert!(hotspots::text::same_text("abc", "abc"));
    assert!(!hotspots::text::same_text("abc", "abd"));
}

#[test]
fn texts_are_searched() {
    let hay = hotspots::text::to_chars("./src/main.go");
    let find = |needle: &str| hotspots::text::contains_exec(&hay, &hotspots::text::to_chars(needle));
    assert!(find("src"));
    assert!(find("./src/main.go"));
    assert!(find(""));
    assert!(find(".go"));
    assert!(!find("./src/main.go "));
    assert!(!find("Src"));
    let at = |needle: &str, place: usize| {
        hotspots::text::occurs_at_exec(&hay, &hotspots::text::to_chars(needle), place)
    };
    assert!(at("./", 0));
    assert!(at("src", 2));
    assert!(!at("src", 3));
    assert!(at("", 13));
    assert!(!at("", 14));
    assert!(!at("o", usize::MAX));
    let list = vec!["lib".to_owned(), "./s".to_owned()];
    assert!(hotspots::text::begins_with_any_exec("./src", &list));
    assert!(!hotspots::text::begins_with_any_exec("src", &list));
    assert!(hotspots::text::contains_any_exec("a/lib/b", &list));
    assert!(!hotspots::text::contains_any_exec("a/b", &list));
    assert!(!hotspots::text::contains_any_exec("a/b", &vec![]));
}
