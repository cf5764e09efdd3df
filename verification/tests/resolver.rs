use minishell::resolver::{has_entry, probe, split_at_char, PathSearch, Probe, Step};

fn names(list: &[&str]) -> Vec<String> {
    list.iter().map(|s| String::from(*s)).collect()
}

fn resolve(name: &str, path_var: &str, listings: &[Option<Vec<String>>]) -> (Option<String>, Vec<String>, usize) {
    let mut search = PathSearch::new(name, path_var);
    let mut complaints = Vec::new();
    let mut listed = 0;
    loop {
        match search.step() {
            Step::List(_) => {
                let listing = listings[listed].as_ref();
                listed += 1;
                if let Some(line) = search.observe(listing) {
                    complaints.push(line);
                }
            }
            Step::Found(path) => return (Some(path), complaints, listed),
            Step::NotFound => return (None, complaints, listed),
        }
    }
}

#[test]
fn split_gives_the_pieces_between_separators() {
    assert_eq!(split_at_char("/bin:/usr/bin", ':'), names(&["/bin", "/usr/bin"]));
    assert_eq!(split_at_char("/bin", ':'), names(&["/bin"]));
}

#[test]
fn split_keeps_empty_pieces() {
    assert_eq!(split_at_char("", ':'), names(&[""]));
    assert_eq!(split_at_char(":", ':'), names(&["", ""]));
    assert_eq!(split_at_char("a::b:", ':'), names(&["a", "", "b", ""]));
    assert_eq!(split_at_char(":a", ':'), names(&["", "a"]));
}

#[test]
fn has_entry_compares_whole_names() {
    let entries = names(&["cat", "ls", "lsblk"]);
    assert!(has_entry(&entries, "ls"));
    assert!(has_entry(&entries, "lsblk"));
    assert!(!has_entry(&entries, "l"));
    assert!(!has_entry(&entries, "LS"));
    assert!(!has_entry(&entries, ""));
    assert!(!has_entry(&names(&[]), "ls"));
}

#[test]
fn probe_joins_directory_and_name() {
    let entries = names(&["cat", "ls"]);
    assert_eq!(probe("/bin", "ls", Some(&entries)), Probe::Found(String::from("/bin/ls")));
    assert_eq!(probe("/bin", "vi", Some(&entries)), Probe::Absent);
    assert_eq!(
        probe("/nowhere", "ls", None),
        Probe::Unreadable(String::from("Couldn't read directory: /nowhere"))
    );
}

#[test]
fn search_starts_at_the_first_directory() {
    let search = PathSearch::new("ls", "/a:/b");
    assert_eq!(search.step(), Step::List(String::from("/a")));
}

#[test]
fn search_walks_the_directories_in_order() {
    let mut search = PathSearch::new("ls", "/a:/b:/c:/d");
    assert_eq!(search.step(), Step::List(String::from("/a")));
    assert_eq!(search.observe(Some(&names(&["cat"]))), None);
    assert_eq!(search.step(), Step::List(String::from("/b")));
    assert_eq!(search.observe(None), Some(String::from("Couldn't read directory: /b")));
    assert_eq!(search.step(), Step::List(String::from("/c")));
    assert_eq!(search.observe(Some(&names(&["ls"]))), None);
    assert_eq!(search.step(), Step::Found(String::from("/c/ls")));
    assert_eq!(search.step(), Step::Found(String::from("/c/ls")));
}

#[test]
fn first_directory_that_holds_the_name_wins() {
    let listings = [Some(names(&["cat"])), Some(names(&["ls"])), Some(names(&["ls"]))];
    let (found, complaints, listed) = resolve("ls", "/a:/b:/c", &listings);
    assert_eq!(found, Some(String::from("/b/ls")));
    assert!(complaints.is_empty());
    assert_eq!(listed, 2);
}

#[test]
fn unreadable_directories_are_skipped_with_a_complaint() {
    let listings = [None, Some(names(&["ls"])), None];
    let (found, complaints, listed) = resolve("ls", "/gone:/bin:/later", &listings);
    assert_eq!(found, Some(String::from("/bin/ls")));
    assert_eq!(complaints, names(&["Couldn't read directory: /gone"]));
    assert_eq!(listed, 2);
}

#[test]
fn a_name_in_no_directory_is_not_found() {
    let listings = [Some(names(&["cat"])), None];
    let (found, complaints, listed) = resolve("ls", "/a:/b", &listings);
    assert_eq!(found, None);
    assert_eq!(complaints, names(&["Couldn't read directory: /b"]));
    assert_eq!(listed, 2);
}

#[test]
fn an_empty_search_path_is_one_empty_directory() {
    let mut search = PathSearch::new("ls", "");
    assert_eq!(search.step(), Step::List(String::new()));
    assert_eq!(search.observe(None), Some(String::from("Couldn't read directory: ")));
    assert_eq!(search.step(), Step::NotFound);
}
