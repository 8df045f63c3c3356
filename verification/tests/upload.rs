use miogenes::upload::{chain_requests, distinct_chains, folder_chain};

fn strings(v: &[&str]) -> Vec<String> {
    v.iter().map(|s| s.to_string()).collect()
}

#[test]
fn chains_follow_the_relative_path() {
    assert_eq!(folder_chain("/music", "album/disc1/song.mp3"), strings(&["/music", "album", "disc1", "song.mp3"]));
    assert_eq!(folder_chain("/music", "a/../b/./c"), strings(&["/music", "b", "c"]));
    assert_eq!(folder_chain("/music", "../../x"), strings(&["x"]));
    assert_eq!(folder_chain("p", ""), strings(&["p"]));
    assert_eq!(folder_chain("p", "./a//b/"), strings(&["p", "a", "b"]));
}

#[test]
fn chains_are_created_once() {
    let chains = vec![
        strings(&["p", "a"]),
        strings(&["p", "b"]),
        strings(&["p", "a"]),
        strings(&["p"]),
        strings(&["p", "b"]),
    ];
    let d = distinct_chains(&chains);
    assert_eq!(d, vec![strings(&["p", "a"]), strings(&["p", "b"]), strings(&["p"])]);
    assert!(distinct_chains(&vec![]).is_empty());
}

#[test]
fn chain_requests_nest_inside_at() {
    let reqs = chain_requests("dest", &strings(&["p", "a", "b"]));
    assert_eq!(
        reqs,
        vec![
            ("p".to_string(), strings(&["dest"])),
            ("a".to_string(), strings(&["dest", "p"])),
            ("b".to_string(), strings(&["dest", "p", "a"])),
        ]
    );
    assert!(chain_requests("dest", &vec![]).is_empty());
}
