use std::path::{Component, Path};

use egui_tester::bytes::{push_little_endian, read_little_endian};
use egui_tester::environment::Environment;
use egui_tester::ospath;
use egui_tester::text;

const PATHS: [&str; 22] = [
    "", ".", "..", "/", "//", "a", "a/", "a//b", "./a", "a/.", "a/./b", "a/../b", "/a", "/a/b/",
    "../a", "a/..", ".hidden", "a/.hidden", "a.b.c", "/a.tar.gz/", "a./", "/..",
];

#[test]
fn paths_agree_with_the_standard_library() {
    for text in PATHS {
        let path = Path::new(text);
        let spelled: Vec<Vec<u8>> = ospath::split_components(text.as_bytes())
            .into_iter()
            .map(|component| match component {
                ospath::Component::RootDir => b"/".to_vec(),
                ospath::Component::CurDir => b".".to_vec(),
                ospath::Component::ParentDir => b"..".to_vec(),
                ospath::Component::Normal(name) => name,
            })
            .collect();
        let expected: Vec<Vec<u8>> = path
            .components()
            .map(|component| component.as_os_str().as_encoded_bytes().to_vec())
            .collect();
        assert_eq!(spelled, expected, "{text:?}");
        assert_eq!(ospath::is_absolute(text.as_bytes()), path.is_absolute(), "{text:?}");
        assert_eq!(
            ospath::parent(text.as_bytes()),
            path.parent().map(|parent| parent.as_os_str().as_encoded_bytes().to_vec()),
            "{text:?}"
        );
        assert_eq!(
            ospath::extension(text.as_bytes()),
            path.extension().map(|extension| extension.as_encoded_bytes().to_vec()),
            "{text:?}"
        );
        assert_eq!(
            ospath::with_extension(text.as_bytes(), "tmp"),
            path.with_extension("tmp").as_os_str().as_encoded_bytes().to_vec(),
            "{text:?}"
        );
        let confined = !text.is_empty()
            && !path.is_absolute()
            && path
                .components()
                .all(|component| matches!(component, Component::Normal(_) | Component::CurDir));
        assert_eq!(ospath::confined_relative(text.as_bytes()), confined, "{text:?}");
        for other in PATHS {
            assert_eq!(
                ospath::join(text.as_bytes(), other.as_bytes()),
                path.join(other).as_os_str().as_encoded_bytes().to_vec(),
                "{text:?} {other:?}"
            );
            assert_eq!(
                ospath::starts_with(text.as_bytes(), other.as_bytes()),
                path.starts_with(other),
                "{text:?} {other:?}"
            );
        }
    }
}

#[test]
fn sorted_paths_agree_with_the_standard_order() {
    let list: Vec<Vec<u8>> = PATHS.iter().map(|path| path.as_bytes().to_vec()).collect();
    let sorted = ospath::sort_unique(&list);
    let mut expected: Vec<&Path> = PATHS.iter().map(Path::new).collect();
    expected.sort();
    expected.dedup();
    let shown: Vec<&Path> = sorted
        .iter()
        .map(|path| Path::new(std::str::from_utf8(path).expect("text")))
        .collect();
    assert_eq!(shown, expected);
}

#[test]
fn white_space_agrees_with_the_standard_library() {
    for code in 0..=0x10_ffff_u32 {
        if let Some(c) = char::from_u32(code) {
            assert_eq!(text::is_white_space(c), c.is_whitespace(), "{code:#x}");
        }
    }
    for sample in ["", " a ", "\u{2003}x\u{85}", "\n\t", "a b"] {
        assert_eq!(text::trim_text(sample), sample.trim());
        assert_eq!(text::trim_start_text(sample), sample.trim_start());
    }
}

#[test]
fn searching_and_splitting_agree_with_the_standard_library() {
    for whole in ["", "a", "aab", "a=b=c", "=", "\r\n", "a\r\nb\n\nc", "a\rb", "\u{e9}=x"] {
        for part in ["", "a", "ab", "=", "c"] {
            assert_eq!(text::contains(whole, part), whole.contains(part), "{whole:?} {part:?}");
            assert_eq!(text::starts_with(whole, part), whole.starts_with(part));
            assert_eq!(
                text::strip_prefix(whole, part),
                whole.strip_prefix(part).map(str::to_owned)
            );
        }
        assert_eq!(
            text::split_once(whole, '='),
            whole.split_once('=').map(|(left, right)| (left.to_owned(), right.to_owned()))
        );
        assert_eq!(text::split_lines(whole), whole.lines().collect::<Vec<_>>(), "{whole:?}");
        assert_eq!(
            text::split_bytes(whole.as_bytes(), b'='),
            whole.as_bytes().split(|byte| *byte == b'=').map(<[u8]>::to_vec).collect::<Vec<_>>()
        );
    }
}

#[test]
fn numbers_are_spelled_like_the_standard_library() {
    for value in [0_u128, 7, 10, 4_294_967_296, u128::MAX] {
        assert_eq!(text::decimal_text(value), value.to_string());
    }
    for value in [0_i64, -1, 42, i64::MIN, i64::MAX] {
        assert_eq!(text::signed_decimal_text(value), value.to_string());
    }
    for value in [0_u32, 9, 10, 0x21, 0xffff_ffff] {
        assert_eq!(text::hexadecimal_text(value), format!("{value:x}"));
    }
}

#[test]
fn little_endian_round_trips() {
    let mut output = Vec::new();
    push_little_endian(&mut output, 0x0102_0304_0506_0708, 8);
    push_little_endian(&mut output, 0x0a0b, 4);
    assert_eq!(&output[..8], &0x0102_0304_0506_0708_u64.to_le_bytes());
    assert_eq!(read_little_endian(&output, 0, 8), 0x0102_0304_0506_0708);
    assert_eq!(read_little_endian(&output, 8, 4), 0x0a0b);
}

#[test]
fn environments_keep_the_last_assignment() {
    let mut environment = Environment::empty();
    environment.assign("B", "1");
    environment.assign("A", "2");
    environment.assign("B", "3");
    assert_eq!(
        environment.entries(),
        &vec![(b"A".to_vec(), b"2".to_vec()), (b"B".to_vec(), b"3".to_vec())]
    );
    assert!(environment.has("A"));
    assert!(!environment.has("C"));
    let mut other = Environment::empty();
    other.assign("A", "9");
    environment.extend(&other);
    assert_eq!(environment.entries()[0].1, b"9".to_vec());
}
