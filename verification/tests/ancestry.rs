use deb_installer::ancestry::{no_self_exe, AncestryStep, AncestryWalk, FrontendProcess};

fn same() -> FrontendProcess {
    FrontendProcess::Running { same_exe: true, exe: "Some(\"/a\")".to_string() }
}

fn accepted(frontend: u32, pid: u32, parents: &[(u32, u32)]) -> bool {
    let mut walk = AncestryWalk::new(frontend, pid);
    let mut step = walk.check_exe(&same(), "\"/a\"");
    loop {
        match step {
            AncestryStep::Accept => return true,
            AncestryStep::Reject(line) => {
                assert!(line.is_none());
                return false;
            }
            AncestryStep::FindParent(pid) => {
                let parent = parents.iter().find(|(p, _)| *p == pid).map(|(_, parent)| *parent);
                step = walk.go_to_parent(parent);
            }
        }
    }
}

#[test]
fn ancestors_are_accepted() {
    let table = [(30, 20), (20, 10), (10, 1), (1, 0), (77, 77)];
    assert!(accepted(20, 30, &table));
    assert!(accepted(10, 30, &table));
    assert!(accepted(1, 30, &table));
}

#[test]
fn a_process_is_not_its_own_ancestor() {
    let table = [(30, 20), (20, 1), (1, 0)];
    assert!(!accepted(30, 30, &table));
    assert!(!accepted(1, 1, &table));
    let walk = AncestryWalk::new(30, 30);
    assert!(matches!(walk.check_exe(&same(), "\"/a\""), AncestryStep::FindParent(30)));
}

#[test]
fn a_long_chain_comes_to_an_end() {
    let table: Vec<(u32, u32)> = (2..2000).map(|pid| (pid, pid - 1)).collect();
    assert!(accepted(1, 1999, &table));
    assert!(!accepted(2000, 1999, &table));
}

#[test]
fn others_are_rejected() {
    let table = [(30, 20), (20, 10), (10, 1), (1, 0), (77, 77)];
    assert!(!accepted(0, 30, &table));
    assert!(!accepted(40, 30, &table));
    assert!(!accepted(30, 20, &table));
    assert!(!accepted(5, 77, &table));
    assert!(!accepted(5, 99, &table));
}

#[test]
fn walk_keeps_its_place_when_it_ends() {
    let mut walk = AncestryWalk::new(5, 30);
    assert!(matches!(walk.go_to_parent(Some(20)), AncestryStep::FindParent(20)));
    assert_eq!(walk.current, 20);
    assert!(matches!(walk.go_to_parent(None), AncestryStep::Reject(None)));
    assert_eq!(walk.current, 20);
    assert!(matches!(walk.go_to_parent(Some(5)), AncestryStep::Accept));
}

#[test]
fn another_executable_is_rejected() {
    let walk = AncestryWalk::new(5, 5);
    let other = FrontendProcess::Running { same_exe: false, exe: "Some(\"/b\")".to_string() };
    match walk.check_exe(&other, "\"/a\"") {
        AncestryStep::Reject(Some(line)) => {
            assert_eq!(line.text, "Frontend exe Some(\"/b\") != self \"/a\"")
        }
        step => panic!("{:?}", step),
    }
}

#[test]
fn missing_process_is_rejected() {
    let walk = AncestryWalk::new(5, 5);
    match walk.check_exe(&FrontendProcess::Missing { pid: "Pid(5)".to_string() }, "\"/a\"") {
        AncestryStep::Reject(Some(line)) => {
            assert_eq!(line.text, "Frontend process Pid(5) not found")
        }
        step => panic!("{:?}", step),
    }
}

#[test]
fn unknown_self_is_rejected() {
    match no_self_exe("denied") {
        AncestryStep::Reject(Some(line)) => {
            assert_eq!(line.text, "Failed to get self exe: denied")
        }
        step => panic!("{:?}", step),
    }
}
