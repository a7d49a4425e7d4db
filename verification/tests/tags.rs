//! Tags and tagged data.

use io_mux::{Address, Fault, Mux, MuxStep, Received, Tag};

fn make_mux() -> Mux {
    let mut setup = Mux::new_with_tempdir(b"/tmp/dir".to_vec());
    loop {
        match setup.step(Ok::<(), Fault<()>>(())) {
            MuxStep::Pending(next) => setup = next,
            MuxStep::Done(result) => return result.unwrap(),
        }
    }
}

fn tag(from: Address) -> Tag {
    let mut mux = make_mux();
    let tagged = mux.read(Ok::<Received, ()>(Received { len: 0, from })).unwrap();
    tagged.tag
}

fn path_tag(path: &str) -> Tag {
    tag(Address::Pathname(path.as_bytes().to_vec()))
}

fn abstract_tag(name: &[u8]) -> Tag {
    tag(Address::Abstract(name.to_vec()))
}

#[test]
fn abstract_tags_compare_by_name() {
    assert_eq!(abstract_tag(b"io-mux-send-1"), abstract_tag(b"io-mux-send-1"));
    assert_ne!(abstract_tag(b"io-mux-send-1"), abstract_tag(b"io-mux-send-2"));
    assert_ne!(abstract_tag(b"io-mux-send-1"), abstract_tag(b"io-mux-send-10"));
    assert_ne!(abstract_tag(b"a/b"), abstract_tag(b"a//b"));
    assert_eq!(abstract_tag(b""), abstract_tag(b""));
}

#[test]
fn path_tags_compare_by_component() {
    assert_eq!(path_tag("/tmp/dir/1f"), path_tag("/tmp/dir/1f"));
    assert_eq!(path_tag("/tmp/dir/1f"), path_tag("/tmp//dir/./1f/"));
    assert_eq!(path_tag("a/b/."), path_tag("a/b"));
    assert_ne!(path_tag("./a"), path_tag("a"));
    assert_ne!(path_tag("/a"), path_tag("a"));
    assert_ne!(path_tag("a/.."), path_tag(""));
    assert_ne!(path_tag("/tmp/dir/1f"), path_tag("/tmp/dir/1e"));
    assert_ne!(path_tag("/tmp/dir/1f"), path_tag("/tmp/dir"));
}

#[test]
fn path_tags_agree_with_paths() {
    let pieces = ["", "/", ".", "..", "a", "b", "ab", "...", ".a", "a."];
    let mut paths: Vec<String> = Vec::new();
    for first in pieces {
        for second in pieces {
            for third in pieces {
                paths.push(format!("{}{}{}", first, second, third));
                if first == "a" || first == "." || first == "" {
                    paths.push(format!("{}/{}/{}", first, second, third));
                }
            }
        }
    }
    let tags: Vec<Tag> = paths.iter().map(|path| path_tag(path)).collect();
    for i in 0..paths.len() {
        for j in 0..paths.len() {
            let same = std::path::Path::new(&paths[i]) == std::path::Path::new(&paths[j]);
            assert_eq!(tags[i] == tags[j], same, "{:?} and {:?}", paths[i], paths[j]);
        }
    }
}

#[test]
fn tags_of_different_kinds_differ() {
    assert_eq!(tag(Address::Unnamed), tag(Address::Unnamed));
    assert_ne!(tag(Address::Unnamed), abstract_tag(b""));
    assert_ne!(tag(Address::Unnamed), path_tag(""));
    assert_ne!(abstract_tag(b"a"), path_tag("a"));
    assert_ne!(path_tag("a"), abstract_tag(b"a"));
}

#[test]
fn tag_equality_is_an_equivalence() {
    let tags = [path_tag("a/b"), path_tag("a//b"), path_tag("a/./b/"), path_tag("c")];
    for a in &tags {
        assert_eq!(a, a);
        for b in &tags {
            assert_eq!(a == b, b == a);
            for c in &tags {
                assert!(!(a == b && b == c) || a == c);
            }
        }
    }
}

#[test]
fn clone_of_a_tag_is_equal() {
    for t in [path_tag("a/b"), abstract_tag(b"a"), tag(Address::Unnamed)] {
        assert_eq!(t.clone(), t);
    }
}

#[test]
fn tagged_data_compares_data_and_tag() {
    let received = |len: usize, name: &[u8]| -> Result<Received, ()> {
        Ok(Received { len, from: Address::Abstract(name.to_vec()) })
    };
    let mut one = make_mux();
    let mut two = make_mux();
    one.buf_mut()[0] = 7;
    two.buf_mut()[0] = 7;
    assert_eq!(one.read(received(1, b"a")).unwrap(), two.read(received(1, b"a")).unwrap());
    assert_ne!(one.read(received(1, b"a")).unwrap(), two.read(received(1, b"b")).unwrap());
    assert_ne!(one.read(received(1, b"a")).unwrap(), two.read(received(2, b"a")).unwrap());
    two.buf_mut()[0] = 8;
    assert_ne!(one.read(received(1, b"a")).unwrap(), two.read(received(1, b"a")).unwrap());
}
