use cheesecake::path_search::{AncestorSearch, PathComponent, SearchStep};

fn n(s: &str) -> PathComponent {
    PathComponent::Normal(s.as_bytes().to_vec())
}

fn show(p: &[PathComponent]) -> String {
    let mut out = String::new();
    for c in p {
        match c {
            PathComponent::RootDir => out.push('/'),
            PathComponent::Prefix(s) => out.push_str(&String::from_utf8_lossy(s)),
            PathComponent::CurDir => out.push_str("./"),
            PathComponent::ParentDir => out.push_str("../"),
            PathComponent::Normal(s) => {
                out.push_str(&String::from_utf8_lossy(s));
                out.push('/');
            }
        }
    }
    out
}

/// Runs the search against a file system in which exactly the listed paths
/// exist; each canonicalizes to "/canon" followed by its own components.
fn run(path: Vec<PathComponent>, existing: &[&str]) -> (Option<String>, Vec<String>) {
    let mut asked = Vec::new();
    let mut search = AncestorSearch::start(path);
    loop {
        let cand = search.candidate();
        let shown = show(&cand);
        asked.push(shown.clone());
        let answer = if existing.contains(&shown.as_str()) {
            let mut c = vec![PathComponent::RootDir, n("canon")];
            c.extend(cand.into_iter());
            Some(c)
        } else {
            None
        };
        match search.advance(answer) {
            SearchStep::Next(s) => search = s,
            SearchStep::Found(p) => return (Some(show(&p)), asked),
            SearchStep::NotFound => return (None, asked),
        }
    }
}

#[test]
fn existing_path_is_canonicalized_directly() {
    let path = vec![PathComponent::RootDir, n("var"), n("log")];
    let (r, asked) = run(path, &["/var/log/"]);
    assert_eq!(r.as_deref(), Some("/canon//var/log/"));
    assert_eq!(asked, vec!["/var/log/"]);
}

#[test]
fn deepest_existing_ancestor_wins() {
    let path = vec![PathComponent::RootDir, n("var"), n("log"), n("app"), n("today")];
    let (r, asked) = run(path, &["/var/", "/var/log/", "/"]);
    assert_eq!(r.as_deref(), Some("/canon//var/log/app/today/"));
    assert_eq!(asked, vec!["/var/log/app/today/", "/var/log/app/", "/var/log/"]);
}

#[test]
fn search_stops_at_root() {
    let path = vec![PathComponent::RootDir, n("a")];
    let (r, asked) = run(path, &[]);
    assert_eq!(r, None);
    assert_eq!(asked, vec!["/a/", "/"]);
}

#[test]
fn relative_path_reaches_empty_path() {
    let path = vec![n("logs"), n("x")];
    let (r, asked) = run(path, &[""]);
    assert_eq!(r.as_deref(), Some("/canon/logs/x/"));
    assert_eq!(asked, vec!["logs/x/", "logs/", ""]);
}

#[test]
fn prefix_stops_search() {
    let path = vec![PathComponent::Prefix(b"C:".to_vec()), PathComponent::RootDir, n("x")];
    let (r, asked) = run(path, &[]);
    assert_eq!(r, None);
    assert_eq!(asked, vec!["C:/x/", "C:/"]);
}

#[test]
fn dot_components_are_ancestors_too() {
    let path = vec![PathComponent::CurDir, PathComponent::ParentDir, n("y")];
    let (r, asked) = run(path, &["./"]);
    assert_eq!(r.as_deref(), Some("/canon/./../y/"));
    assert_eq!(asked, vec!["./../y/", "./../", "./"]);
}

#[test]
fn empty_path_is_tried_once() {
    let (r, asked) = run(Vec::new(), &[]);
    assert_eq!(r, None);
    assert_eq!(asked, vec![""]);
}

#[test]
fn non_utf8_names_are_kept_as_bytes() {
    let path = vec![PathComponent::RootDir, PathComponent::Normal(vec![0x66, 0xff, 0x6f])];
    let mut search = AncestorSearch::start(path);
    let cand = search.candidate();
    assert!(matches!(&cand[1], PathComponent::Normal(b) if b == &vec![0x66, 0xff, 0x6f]));
    match search.advance(None) {
        SearchStep::Next(s) => search = s,
        _ => panic!("the root is an ancestor"),
    }
    match search.advance(Some(vec![PathComponent::RootDir])) {
        SearchStep::Found(p) => {
            assert_eq!(p.len(), 2);
            assert!(matches!(&p[1], PathComponent::Normal(b) if b == &vec![0x66, 0xff, 0x6f]));
        }
        _ => panic!("the root canonicalizes"),
    }
}

#[test]
fn canonicalizing_twice_gives_the_same_path() {
    // "/data" exists and canonicalizes to "/srv/data"; nothing below it exists.
    fn canon(p: &[PathComponent]) -> Option<Vec<PathComponent>> {
        let shown = show(p);
        if shown == "/data/" || shown == "/srv/data/" {
            Some(vec![PathComponent::RootDir, n("srv"), n("data")])
        } else if shown == "/" || shown == "/srv/" {
            Some(p.iter().map(|c| c.duplicate()).collect())
        } else {
            None
        }
    }
    fn run_canon(path: Vec<PathComponent>) -> Option<Vec<PathComponent>> {
        let mut search = AncestorSearch::start(path);
        loop {
            let answer = canon(&search.candidate());
            match search.advance(answer) {
                SearchStep::Next(s) => search = s,
                SearchStep::Found(p) => return Some(p),
                SearchStep::NotFound => return None,
            }
        }
    }
    let first = run_canon(vec![PathComponent::RootDir, n("data"), n("logs"), n("x")]).unwrap();
    assert_eq!(show(&first), "/srv/data/logs/x/");
    let second = run_canon(first).unwrap();
    assert_eq!(show(&second), "/srv/data/logs/x/");
}
