//! Tests of versions, variants, characters and details.

use std::cmp::Ordering;
use torch_check::details::Details;
use torch_check::model::{
    is_unsafe_terminal_character, Architecture, ComputeCapability, CudaVariant, FilePath,
    OperatingSystem,
};
use torch_check::version::{NumericVersion, VersionParseError};

#[test]
fn numeric_versions_ignore_insignificant_trailing_zeroes_for_ordering() {
    let short: NumericVersion = "525.60".parse().expect("valid version");
    let long: NumericVersion = "525.60.0".parse().expect("valid version");
    assert_eq!(short.cmp(&long), Ordering::Equal);
    assert_eq!(short, long);
    assert_eq!(long.to_string(), "525.60.0");
}

#[test]
fn numeric_versions_compare_each_component_numerically() {
    let older: NumericVersion = "530.9.99".parse().expect("valid version");
    let newer: NumericVersion = "530.30.2".parse().expect("valid version");
    assert!(older < newer);
}

#[test]
fn numeric_versions_preserve_reported_zero_padding() {
    for reported in ["530.30.02", "575.57.08"] {
        let version: NumericVersion = reported.parse().expect("valid version");
        assert_eq!(version.to_string(), reported);
        assert_eq!(
            serde_json::to_string(&version.to_string()).expect("serialize"),
            format!("\"{reported}\"")
        );
    }

    let padded: NumericVersion = "530.30.02".parse().expect("valid version");
    let canonical: NumericVersion = "530.30.2".parse().expect("valid version");
    assert_eq!(padded, canonical, "zero padding must not affect comparison");
}

#[test]
fn terminal_unsafe_characters_cover_controls_formats_and_non_ascii_separators() {
    for character in [
        '\n',
        '\u{001b}',
        '\u{00a0}',
        '\u{061c}',
        '\u{1680}',
        '\u{2007}',
        '\u{2028}',
        '\u{2029}',
        '\u{202e}',
        '\u{202f}',
        '\u{205f}',
        '\u{3000}',
        '\u{e0001}',
    ] {
        assert!(
            is_unsafe_terminal_character(character),
            "U+{:04X} should be unsafe",
            u32::from(character)
        );
    }
    for character in [' ', 'a', '日', '🙂'] {
        assert!(
            !is_unsafe_terminal_character(character),
            "U+{:04X} should be preserved",
            u32::from(character)
        );
    }
}

#[test]
fn cuda_variants_round_trip() {
    for value in ["cpu", "cu92", "cu118", "cu124", "cu132"] {
        let parsed: CudaVariant = value.parse().expect("valid CUDA variant");
        assert_eq!(parsed.to_string(), value);
    }
}

#[test]
fn invalid_cuda_variants_are_rejected() {
    for value in ["", "cuda124", "cu", "cu12x", "rocm6.3"] {
        assert!(value.parse::<CudaVariant>().is_err(), "accepted {value}");
    }
}

#[test]
fn numeric_version_order_matches_zero_padded_tuple_order() {
    let versions: [&[u32]; 7] = [&[0], &[1], &[1, 0, 0], &[1, 2], &[1, 10], &[2, 0, 1], &[65535]];
    for left in versions {
        for right in versions {
            let width = left.len().max(right.len());
            let expected = (0..width)
                .map(|index| {
                    left.get(index)
                        .copied()
                        .unwrap_or(0)
                        .cmp(&right.get(index).copied().unwrap_or(0))
                })
                .find(|ordering| *ordering != Ordering::Equal)
                .unwrap_or(Ordering::Equal);
            let left = NumericVersion::new(left.to_vec()).expect("non-empty version");
            let right = NumericVersion::new(right.to_vec()).expect("non-empty version");
            assert_eq!(left.cmp(&right), expected);
            assert_eq!(left == right, expected == Ordering::Equal);
            assert_eq!(left.significant() == right.significant(), left == right);
            assert_eq!(left.at_least(&right), expected != Ordering::Less);
        }
    }
}

#[test]
fn malformed_versions_are_rejected() {
    assert_eq!(
        "".parse::<NumericVersion>().expect_err("empty"),
        VersionParseError::Empty
    );
    assert!(matches!(NumericVersion::new(Vec::new()), Err(VersionParseError::Empty)));
    for value in ["1..2", "1.x", ".1", "-1"] {
        assert!(value.parse::<NumericVersion>().is_err(), "accepted {value}");
    }
    let huge = "99999999999".parse::<NumericVersion>().expect_err("too large");
    assert!(huge.to_string().contains("99999999999"));
    let version: NumericVersion = "12.4".parse().expect("valid version");
    assert_eq!(version.components(), &[12, 4]);
    assert_eq!(version.component(1), 4);
    assert_eq!(version.component(2), 0);
}

#[test]
fn capabilities_have_two_components() {
    let capability: ComputeCapability = "8.6".parse().expect("capability");
    assert_eq!(capability, ComputeCapability { major: 8, minor: 6 });
    assert_eq!(capability.to_string(), "8.6");
    assert_eq!(
        "12".parse::<ComputeCapability>().expect("capability"),
        ComputeCapability { major: 12, minor: 0 }
    );
    assert!("70000.0".parse::<ComputeCapability>().is_err());
    assert!(capability.at_least(&ComputeCapability { major: 7, minor: 9 }));
    assert!(!capability.at_least(&ComputeCapability { major: 8, minor: 9 }));
}

#[test]
fn names_of_systems_round_trip() {
    for name in ["linux", "windows", "macos", "plan9"] {
        assert_eq!(OperatingSystem::from_name(name).to_string(), name);
    }
    for name in ["x86_64", "aarch64", "riscv64"] {
        assert_eq!(Architecture::from_name(name).to_string(), name);
    }
    assert_eq!(OperatingSystem::from_name("linux"), OperatingSystem::Linux);
}

#[test]
fn details_are_ordered_by_name_and_bound_once() {
    let mut details = Details::new();
    assert!(details.is_empty());
    details.insert("minimum".to_owned(), "2".to_owned());
    details.insert("detected".to_owned(), "1".to_owned());
    details.insert("minimum".to_owned(), "3".to_owned());
    assert_eq!(
        details.entries(),
        &vec![
            ("detected".to_owned(), "1".to_owned()),
            ("minimum".to_owned(), "3".to_owned()),
        ]
    );
    assert_eq!(details.get("detected").map(String::as_str), Some("1"));
    assert_eq!(details.get("other"), None);
    details.set_value(0, "4".to_owned());
    assert_eq!(details.get("detected").map(String::as_str), Some("4"));
}

#[test]
fn paths_are_joined_with_one_separator() {
    assert_eq!(FilePath::new("/a").join("b"), FilePath::new("/a/b"));
    assert_eq!(FilePath::new("/").join("b"), FilePath::new("/b"));
}

#[test]
fn printed_values_are_read_back() {
    let built = NumericVersion::new(vec![530, 30, 2]).expect("version");
    assert_eq!(built.to_string(), "530.30.2");
    let read: NumericVersion = built.to_string().parse().expect("version");
    assert_eq!(read.components(), built.components());
    let padded: NumericVersion = " 530.30.02 ".parse().expect("version");
    assert_eq!(padded.to_string(), "530.30.02");
    let capability = ComputeCapability { major: 12, minor: 0 };
    assert_eq!(capability.to_string().parse::<ComputeCapability>(), Ok(capability));
    for text in ["cu124", " CU124\t", "Cu124"] {
        assert_eq!(text.parse(), Ok(CudaVariant::Cuda { major: 12, minor: 4 }));
    }
    assert_eq!(" CPU ".parse(), Ok(CudaVariant::Cpu));
}
