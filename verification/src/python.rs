//! The Python interpreter: which one is used, what it reports, and which wheels it accepts.

use crate::command::{
    bounded_lossy, bounded_text, command_error_text, truncate_string, truncated, CapturedOutput,
    CapturedOutputView, CommandError, CommandErrorView,
};
use crate::host::{nonempty, nonempty_trimmed};
use crate::model::{
    is_unsafe_terminal_character, noted, path_of, path_within, plain_diagnostic,
    unsafe_terminal_character, Diagnostic, DiagnosticCode, DiagnosticSeverity, DiagnosticView,
    FilePath, FilePathView, PythonInfo, PythonInfoView, TagSource,
};
use crate::order::{distinct, distinct_members, kept};
use crate::pieces::{
    after_prefix, distinct_texts, join, join_texts, split, split_on, strip_prefix, trim, trimmed,
};
use crate::text::{
    alphanumeric, clone_optional, clone_texts, concat2, concat3, concat4, concat5, decimal,
    decimal_text, from_chars, is_alphanumeric, lower, lowercase, outcome, push_item, same, to_chars,
    to_lowercase,
};
use crate::version::{component_at, component_texts, NumericVersion, NumericVersionView};
use vstd::prelude::*;
use vstd::utf8::encode_utf8;

verus! {

/// Most tags taken over from an interpreter.
pub const MAX_PYTHON_TAGS: usize = 8192;

/// Most bytes of a tag.
pub const MAX_TAG_LENGTH: usize = 256;

/// What an interpreter reports about itself.
#[derive(Debug, PartialEq, Eq)]
pub struct PythonProbeResult {
    /// Implementation name.
    pub implementation: String,
    /// Version components.
    pub version: Vec<u32>,
    /// `SOABI`, if there is one.
    pub soabi: Option<String>,
    /// `sys.implementation.cache_tag`.
    pub cache_tag: Option<String>,
    /// `sysconfig.get_platform()`.
    pub platform: String,
    /// Pointer width in bits.
    pub pointer_width: u16,
    /// Whether this is a free-threaded build.
    pub free_threaded: bool,
    /// Prefix of the virtual environment.
    pub virtual_environment: Option<String>,
    /// Whether `packaging` computed the tags.
    pub packaging_available: bool,
    /// Compatible tags, most preferred first.
    pub compatible_tags: Vec<String>,
}

/// The model of [`PythonProbeResult`].
#[verifier::ext_equal]
pub struct PythonProbeResultView {
    pub implementation: Seq<char>,
    pub version: Seq<u32>,
    pub soabi: Option<Seq<char>>,
    pub cache_tag: Option<Seq<char>>,
    pub platform: Seq<char>,
    pub pointer_width: u16,
    pub free_threaded: bool,
    pub virtual_environment: Option<Seq<char>>,
    pub packaging_available: bool,
    pub compatible_tags: Seq<Seq<char>>,
}

impl DeepView for PythonProbeResult {
    type V = PythonProbeResultView;

    open spec fn deep_view(&self) -> PythonProbeResultView {
        PythonProbeResultView {
            implementation: self.implementation@,
            version: self.version@,
            soabi: self.soabi.deep_view(),
            cache_tag: self.cache_tag.deep_view(),
            platform: self.platform@,
            pointer_width: self.pointer_width,
            free_threaded: self.free_threaded,
            virtual_environment: self.virtual_environment.deep_view(),
            packaging_available: self.packaging_available,
            compatible_tags: self.compatible_tags.deep_view(),
        }
    }
}

impl Clone for PythonProbeResult {
    fn clone(&self) -> (copy: PythonProbeResult)
        ensures
            copy.deep_view() == self.deep_view(),
    {
        let version = self.version.clone();
        assert(version@ =~= self.version@);
        PythonProbeResult {
            implementation: self.implementation.clone(),
            version,
            soabi: clone_optional(&self.soabi),
            cache_tag: clone_optional(&self.cache_tag),
            platform: self.platform.clone(),
            pointer_width: self.pointer_width,
            free_threaded: self.free_threaded,
            virtual_environment: clone_optional(&self.virtual_environment),
            packaging_available: self.packaging_available,
            compatible_tags: clone_texts(&self.compatible_tags),
        }
    }
}

// ---------------------------------------------------------------------------
// Tags

/// The characters of one part of a compatibility tag.
pub open spec fn tag_char(character: char) -> bool {
    alphanumeric(character) || character == '_' || character == '.'
}

/// Whether `part` can stand in a compatibility tag.
pub open spec fn tag_part(part: Seq<char>) -> bool {
    part.len() > 0 && forall|i: int| 0 <= i < part.len() ==> tag_char(#[trigger] part[i])
}

/// Whether `tag` is a compatibility tag: three parts, and not too long.
pub open spec fn compatibility_tag(tag: Seq<char>) -> bool {
    let parts = split_on(tag, '-');
    &&& encode_utf8(tag).len() <= MAX_TAG_LENGTH
    &&& parts.len() == 3
    &&& tag_part(parts[0])
    &&& tag_part(parts[1])
    &&& tag_part(parts[2])
}

fn is_tag_part(part: &str) -> (answer: bool)
    ensures
        answer == tag_part(part@),
{
    let chars = to_chars(part);
    if chars.len() == 0 {
        return false;
    }
    let mut index: usize = 0;
    while index < chars.len()
        invariant
            index <= chars@.len(),
            chars@ == part@,
            forall|i: int| 0 <= i < index ==> tag_char(#[trigger] part@[i]),
        decreases chars@.len() - index,
    {
        let character = chars[index];
        if !(is_alphanumeric(character) || character == '_' || character == '.') {
            assert(!tag_char(part@[index as int]));
            return false;
        }
        index = index + 1;
    }
    true
}

/// Whether `tag` is a compatibility tag.
pub fn valid_compatibility_tag(tag: &str) -> (answer: bool)
    ensures
        answer == compatibility_tag(tag@),
{
    if tag.as_bytes().len() > MAX_TAG_LENGTH {
        return false;
    }
    let parts = split(tag, '-');
    assert(parts.deep_view().len() == parts@.len());
    if parts.len() != 3 {
        return false;
    }
    assert(parts.deep_view()[0] == parts@[0]@);
    assert(parts.deep_view()[1] == parts@[1]@);
    assert(parts.deep_view()[2] == parts@[2]@);
    is_tag_part(parts[0].as_str()) && is_tag_part(parts[1].as_str()) && is_tag_part(
        parts[2].as_str(),
    )
}

/// How a character of a platform name is written in a tag.
pub open spec fn platform_char(character: char) -> char {
    if character == '-' || character == '.' {
        '_'
    } else {
        lower(character)
    }
}

/// The platform part of a tag for a platform name.
pub open spec fn platform_tag(platform: Seq<char>) -> Seq<char> {
    trimmed(platform).map_values(|character: char| platform_char(character))
}

/// The platform part of a tag for a platform name.
pub fn normalize_python_platform(platform: &str) -> (tag: String)
    ensures
        tag@ == platform_tag(platform@),
{
    let name = trim(platform);
    let small = to_lowercase(name.as_str());
    let chars = to_chars(small.as_str());
    let mut tag = String::new();
    let mut index: usize = 0;
    while index < chars.len()
        invariant
            index <= chars@.len(),
            chars@ == lowercase(name@),
            tag@ == name@.take(index as int).map_values(|character: char| platform_char(character)),
        decreases chars@.len() - index,
    {
        let character = chars[index];
        assert(character == lower(name@[index as int]));
        if character == '-' || character == '.' {
            tag.push('_');
        } else {
            tag.push(character);
        }
        assert(name@.take(index + 1).map_values(|character: char| platform_char(character))
            =~= name@.take(index as int).map_values(
            |character: char| platform_char(character),
        ).push(platform_char(name@[index as int])));
        index = index + 1;
    }
    assert(name@.take(index as int) =~= name@);
    tag
}

/// The lowest minor version of the GNU C library for which a tag is offered.
pub open spec fn lowest_glibc_minor(current: nat) -> nat {
    if current >= 68 {
        (current - 63) as nat
    } else {
        5
    }
}

/// The platform tag for the GNU C library 2.`minor`.
pub open spec fn manylinux(minor: nat, architecture: Seq<char>) -> Seq<char> {
    "manylinux_2_"@ + decimal(minor) + "_"@ + architecture
}

/// The platform tags for the GNU C library 2.`current` and those it stands in for, newest first.
pub open spec fn manylinux_range(current: nat, architecture: Seq<char>) -> Seq<Seq<char>> {
    Seq::new(
        (current - lowest_glibc_minor(current) + 1) as nat,
        |i: int| manylinux((current - i) as nat, architecture),
    )
}

/// `items`, and `item` where `condition` holds.
pub open spec fn with_if<T>(items: Seq<T>, condition: bool, item: T) -> Seq<T> {
    if condition {
        items.push(item)
    } else {
        items
    }
}

/// The platform tags that a C library adds to the plain one of the platform.
pub open spec fn libc_platforms(
    platform: Seq<char>,
    glibc: Option<NumericVersionView>,
) -> Seq<Seq<char>> {
    match (glibc, after_prefix(platform, "linux_"@)) {
        (Some(libc), Some(architecture)) => {
            let minor = component_at(libc.components, 1) as nat;
            let intel = architecture == "x86_64"@;
            if component_at(libc.components, 0) == 2 && minor >= 5 {
                with_if(
                    with_if(
                        with_if(
                            manylinux_range(minor, architecture),
                            minor >= 17,
                            "manylinux2014_"@ + architecture,
                        ),
                        minor >= 12 && intel,
                        "manylinux2010_x86_64"@,
                    ),
                    intel,
                    "manylinux1_x86_64"@,
                )
            } else {
                Seq::empty()
            }
        },
        _ => Seq::empty(),
    }
}

fn list_libc_platforms(platform: &str, glibc: Option<&NumericVersion>) -> (platforms: Vec<String>)
    ensures
        platforms.deep_view() == libc_platforms(
            platform@,
            match glibc {
                Some(version) => Some(version.deep_view()),
                None => None,
            },
        ),
{
    let mut platforms: Vec<String> = Vec::new();
    assert(platforms.deep_view() =~= Seq::<Seq<char>>::empty());
    let architecture = match strip_prefix(platform, "linux_") {
        Some(architecture) => architecture,
        None => {
            return platforms;
        },
    };
    let libc = match glibc {
        Some(libc) => libc,
        None => {
            return platforms;
        },
    };
    let current: u32 = libc.component(1);
    if libc.component(0) != 2 || current < 5 {
        return platforms;
    }
    let lowest: u32 = if current >= 68 {
        current - 63
    } else {
        5
    };
    let intel = same(architecture.as_str(), "x86_64");
    let count: u32 = current - lowest + 1;
    let ghost range = manylinux_range(current as nat, architecture@);
    let mut done: u32 = 0;
    while done < count
        invariant
            done <= count,
            5 <= lowest <= current,
            lowest == lowest_glibc_minor(current as nat),
            count == current - lowest + 1,
            range == manylinux_range(current as nat, architecture@),
            platforms.deep_view() == range.take(done as int),
        decreases count - done,
    {
        let minor: u32 = current - done;
        let tag = concat4(
            "manylinux_2_",
            decimal_text(minor as u64).as_str(),
            "_",
            architecture.as_str(),
        );
        push_item(&mut platforms, tag);
        assert(range[done as int] == manylinux(minor as nat, architecture@));
        assert(range.take(done + 1) =~= range.take(done as int).push(range[done as int]));
        done = done + 1;
    }
    assert(range.take(done as int) =~= range);
    if current >= 17 {
        push_item(&mut platforms, concat2("manylinux2014_", architecture.as_str()));
    }
    if current >= 12 && intel {
        push_item(&mut platforms, "manylinux2010_x86_64".to_owned());
    }
    if intel {
        push_item(&mut platforms, "manylinux1_x86_64".to_owned());
    }
    platforms
}

/// The tags of an interpreter for one platform.
pub open spec fn tags_for_platform(
    interpreter: Seq<char>,
    free_threaded: bool,
    platform: Seq<char>,
) -> Seq<Seq<char>> {
    let abi = interpreter + (if free_threaded {
        "t"@
    } else {
        ""@
    });
    with_if(
        seq![interpreter + "-"@ + abi + "-"@ + platform],
        !free_threaded,
        interpreter + "-abi3-"@ + platform,
    ).push(interpreter + "-none-"@ + platform)
}

/// The tags of an interpreter for several platforms, in their order.
pub open spec fn tags_for_platforms(
    interpreter: Seq<char>,
    free_threaded: bool,
    platforms: Seq<Seq<char>>,
) -> Seq<Seq<char>>
    decreases platforms.len(),
{
    if platforms.len() == 0 {
        Seq::empty()
    } else {
        tags_for_platforms(interpreter, free_threaded, platforms.drop_last()) + tags_for_platform(
            interpreter,
            free_threaded,
            platforms.last(),
        )
    }
}

/// The tags that an interpreter is taken to accept where it does not list them itself.
pub open spec fn builtin_tags(
    implementation: Seq<char>,
    version: Seq<u32>,
    free_threaded: bool,
    python_platform: Seq<char>,
    glibc: Option<NumericVersionView>,
) -> Seq<Seq<char>> {
    let major = decimal(component_at(version, 0) as nat);
    let minor = decimal(component_at(version, 1) as nat);
    let platform = platform_tag(python_platform);
    let native = if implementation == "cpython"@ {
        tags_for_platforms(
            "cp"@ + major + minor,
            free_threaded,
            libc_platforms(platform, glibc).push(platform),
        )
    } else {
        Seq::empty()
    };
    distinct(
        with_if(
            native.push("py"@ + major + "-none-any"@),
            component_at(version, 0) == 3,
            "py3-none-any"@,
        ),
    )
}

/// The tags that an interpreter is taken to accept where it does not list them itself.
pub fn builtin_compatible_tags(
    implementation: &str,
    version: &NumericVersion,
    free_threaded: bool,
    python_platform: &str,
    glibc: Option<&NumericVersion>,
) -> (tags: Vec<String>)
    ensures
        tags.deep_view() == builtin_tags(
            implementation@,
            version.deep_view().components,
            free_threaded,
            python_platform@,
            match glibc {
                Some(libc) => Some(libc.deep_view()),
                None => None,
            },
        ),
{
    let major = decimal_text(version.component(0) as u64);
    let minor = decimal_text(version.component(1) as u64);
    let platform = normalize_python_platform(python_platform);
    let mut tags: Vec<String> = Vec::new();
    assert(tags.deep_view() =~= Seq::<Seq<char>>::empty());
    if same(implementation, "cpython") {
        let mut platforms = list_libc_platforms(platform.as_str(), glibc);
        push_item(&mut platforms, platform.clone());
        let ghost all = platforms.deep_view();
        let interpreter = concat3("cp", major.as_str(), minor.as_str());
        let suffix = if free_threaded {
            "t"
        } else {
            ""
        };
        let abi = concat2(interpreter.as_str(), suffix);
        let mut index: usize = 0;
        while index < platforms.len()
            invariant
                index <= platforms@.len(),
                all == platforms.deep_view(),
                abi@ == interpreter@ + (if free_threaded {
                    "t"@
                } else {
                    ""@
                }),
                tags.deep_view() == tags_for_platforms(
                    interpreter@,
                    free_threaded,
                    all.take(index as int),
                ),
            decreases platforms@.len() - index,
        {
            let ghost earlier = tags.deep_view();
            let name = platforms[index].as_str();
            assert(all.take(index + 1).drop_last() =~= all.take(index as int));
            assert(all.take(index + 1).last() == platforms@[index as int]@);
            push_item(&mut tags, concat5(interpreter.as_str(), "-", abi.as_str(), "-", name));
            if !free_threaded {
                push_item(&mut tags, concat3(interpreter.as_str(), "-abi3-", name));
            }
            push_item(&mut tags, concat3(interpreter.as_str(), "-none-", name));
            assert(tags.deep_view() =~= earlier + tags_for_platform(
                interpreter@,
                free_threaded,
                platforms@[index as int]@,
            ));
            index = index + 1;
        }
        assert(all.take(index as int) =~= all);
    }
    push_item(&mut tags, concat3("py", major.as_str(), "-none-any"));
    if version.component(0) == 3 {
        push_item(&mut tags, "py3-none-any".to_owned());
    }
    distinct_texts(tags)
}

// ---------------------------------------------------------------------------
// Reports of an interpreter

/// The tags of a report that are taken over.
pub open spec fn reported_tags(tags: Seq<Seq<char>>) -> Seq<Seq<char>> {
    distinct(
        kept(
            if tags.len() <= MAX_PYTHON_TAGS {
                tags
            } else {
                tags.take(MAX_PYTHON_TAGS as int)
            },
            |tag: Seq<char>| compatibility_tag(tag),
        ),
    )
}

fn collect_reported_tags(tags: &Vec<String>) -> (result: Vec<String>)
    ensures
        result.deep_view() == reported_tags(tags.deep_view()),
{
    let count: usize = if tags.len() <= MAX_PYTHON_TAGS {
        tags.len()
    } else {
        MAX_PYTHON_TAGS
    };
    let ghost all = tags.deep_view();
    let ghost keep = |tag: Seq<char>| compatibility_tag(tag);
    let mut valid: Vec<String> = Vec::new();
    let mut index: usize = 0;
    while index < count
        invariant
            index <= count <= tags@.len(),
            all == tags.deep_view(),
            keep == (|tag: Seq<char>| compatibility_tag(tag)),
            valid.deep_view() == kept(all.take(index as int), keep),
        decreases count - index,
    {
        assert(all.take(index + 1).drop_last() =~= all.take(index as int));
        assert(all.take(index + 1).last() == tags@[index as int]@);
        if valid_compatibility_tag(tags[index].as_str()) {
            push_item(&mut valid, tags[index].clone());
        }
        index = index + 1;
    }
    assert(tags@.len() <= MAX_PYTHON_TAGS ==> all.take(count as int) =~= all);
    distinct_texts(valid)
}

/// What keeps a report from being used.
pub open spec fn probe_objection(probe: PythonProbeResultView) -> Option<Seq<char>> {
    if probe.version.len() < 2 || probe.version.len() > 4 {
        Some("Python returned an invalid version vector"@)
    } else if probe.pointer_width != 32 && probe.pointer_width != 64 {
        Some("unsupported pointer width "@ + decimal(probe.pointer_width as nat))
    } else if trimmed(probe.platform).len() == 0 {
        Some("Python returned an empty platform"@)
    } else if trimmed(probe.implementation).len() == 0 {
        Some("Python returned an empty implementation"@)
    } else {
        None
    }
}

/// An optional text without surrounding white space; `None` where nothing is left.
pub open spec fn nonempty_option(text: Option<Seq<char>>) -> Option<Seq<char>> {
    match text {
        Some(value) => nonempty(value),
        None => None,
    }
}

fn trim_option(text: &Option<String>) -> (result: Option<String>)
    ensures
        result.deep_view() == nonempty_option(text.deep_view()),
{
    match text {
        Some(value) => nonempty_trimmed(value.as_str()),
        None => None,
    }
}

/// The interpreter that a report describes. The executable is the one that was started, and a
/// virtual environment found around it counts before the one that the interpreter reports.
/// `configured` tells whether the directory above it has a `pyvenv.cfg` that can be read.
pub open spec fn probed_python(
    probe: PythonProbeResultView,
    executable: FilePathView,
    configured: bool,
    glibc: Option<NumericVersionView>,
) -> Result<PythonInfoView, Seq<char>> {
    match probe_objection(probe) {
        Some(objection) => Err(objection),
        None => {
            let implementation = lowercase(trimmed(probe.implementation));
            let tags = reported_tags(probe.compatible_tags);
            let use_packaging = probe.packaging_available && tags.len() > 0;
            Ok(
                PythonInfoView {
                    executable,
                    implementation,
                    version: NumericVersionView {
                        components: probe.version,
                        text: join(component_texts(probe.version), "."@),
                    },
                    soabi: nonempty_option(probe.soabi),
                    cache_tag: nonempty_option(probe.cache_tag),
                    platform: probe.platform,
                    pointer_width: probe.pointer_width,
                    free_threaded: probe.free_threaded,
                    virtual_environment: match environment_around(executable, configured) {
                        Some(root) => Some(root),
                        None => match nonempty_option(probe.virtual_environment) {
                            Some(text) => Some(path_of(text)),
                            None => None,
                        },
                    },
                    compatible_tags: if use_packaging {
                        tags
                    } else {
                        builtin_tags(
                            implementation,
                            probe.version,
                            probe.free_threaded,
                            probe.platform,
                            glibc,
                        )
                    },
                    tag_source: if use_packaging {
                        TagSource::Packaging
                    } else {
                        TagSource::Builtin
                    },
                },
            )
        },
    }
}

/// The interpreter that a report describes.
pub fn python_info_from_probe(
    probe: &PythonProbeResult,
    executable: &FilePath,
    configured: bool,
    glibc: Option<&NumericVersion>,
) -> (result: Result<PythonInfo, String>)
    ensures
        outcome(result) == probed_python(
            probe.deep_view(),
            executable.deep_view(),
            configured,
            match glibc {
                Some(version) => Some(version.deep_view()),
                None => None,
            },
        ),
{
    if probe.version.len() < 2 || probe.version.len() > 4 {
        return Err("Python returned an invalid version vector".to_owned());
    }
    if probe.pointer_width != 32 && probe.pointer_width != 64 {
        return Err(
            concat2(
                "unsupported pointer width ",
                decimal_text(probe.pointer_width as u64).as_str(),
            ),
        );
    }
    if trim(probe.platform.as_str()).as_str().is_empty() {
        return Err("Python returned an empty platform".to_owned());
    }
    let name = trim(probe.implementation.as_str());
    if name.as_str().is_empty() {
        return Err("Python returned an empty implementation".to_owned());
    }
    let components = probe.version.clone();
    assert(components@ =~= probe.version@);
    let version = match NumericVersion::new(components) {
        Ok(version) => version,
        Err(_) => {
            assert(false);
            return Err("Python returned an invalid version vector".to_owned());
        },
    };
    let implementation = to_lowercase(name.as_str());
    let tags = collect_reported_tags(&probe.compatible_tags);
    assert(tags.deep_view().len() == tags@.len());
    let use_packaging = probe.packaging_available && tags.len() > 0;
    let compatible_tags = if use_packaging {
        tags
    } else {
        builtin_compatible_tags(
            implementation.as_str(),
            &version,
            probe.free_threaded,
            probe.platform.as_str(),
            glibc,
        )
    };
    let virtual_environment = match infer_virtual_environment(executable, configured) {
        Some(root) => Some(root),
        None => match trim_option(&probe.virtual_environment) {
            Some(text) => Some(FilePath::new(text.as_str())),
            None => None,
        },
    };
    Ok(
        PythonInfo {
            executable: executable.clone(),
            implementation,
            version,
            soabi: trim_option(&probe.soabi),
            cache_tag: trim_option(&probe.cache_tag),
            platform: probe.platform.clone(),
            pointer_width: probe.pointer_width,
            free_threaded: probe.free_threaded,
            virtual_environment,
            compatible_tags,
            tag_source: if use_packaging {
                TagSource::Packaging
            } else {
                TagSource::Builtin
            },
        },
    )
}

// ---------------------------------------------------------------------------
// Which interpreter

/// The launcher of a virtual environment.
pub open spec fn launcher_of(root: FilePathView, windows: bool) -> FilePathView {
    if windows {
        path_within(path_within(root, "Scripts"@), "python.exe"@)
    } else {
        path_within(path_within(root, "bin"@), "python"@)
    }
}

/// The interpreters to try, in order: the one asked for and no other, or the one of the active
/// virtual environment and those of the search path.
pub open spec fn candidates_to_try(
    explicit: Option<FilePathView>,
    virtual_environment: Option<FilePathView>,
    windows: bool,
) -> Seq<FilePathView> {
    match explicit {
        Some(path) => seq![path],
        None => distinct(
            (match virtual_environment {
                Some(root) if root.text.len() > 0 => seq![launcher_of(root, windows)],
                _ => Seq::empty(),
            }).push(path_of("python3"@)).push(path_of("python"@)),
        ),
    }
}

fn same_path(left: &FilePath, right: &FilePath) -> (equal: bool)
    ensures
        equal == (left.deep_view() == right.deep_view()),
{
    assert(left.deep_view() =~= right.deep_view() <==> left.text@ == right.text@ && left.utf8
        == right.utf8);
    same(left.text.as_str(), right.text.as_str()) && left.utf8 == right.utf8
}

fn contains_path(paths: &Vec<FilePath>, path: &FilePath) -> (found: bool)
    ensures
        found == paths.deep_view().contains(path.deep_view()),
{
    let mut index: usize = 0;
    while index < paths.len()
        invariant
            index <= paths@.len(),
            forall|i: int| 0 <= i < index ==> paths.deep_view()[i] != path.deep_view(),
        decreases paths@.len() - index,
    {
        assert(paths.deep_view()[index as int] == paths@[index as int].deep_view());
        if same_path(&paths[index], path) {
            return true;
        }
        index = index + 1;
    }
    false
}

fn distinct_paths(paths: Vec<FilePath>) -> (result: Vec<FilePath>)
    ensures
        result.deep_view() == distinct(paths.deep_view()),
{
    let ghost all = paths.deep_view();
    let mut result: Vec<FilePath> = Vec::new();
    let mut index: usize = 0;
    while index < paths.len()
        invariant
            index <= paths@.len(),
            all == paths.deep_view(),
            result.deep_view() == distinct(all.take(index as int)),
        decreases paths@.len() - index,
    {
        assert(all.take(index + 1).drop_last() =~= all.take(index as int));
        assert(all.take(index + 1).last() == paths@[index as int].deep_view());
        proof {
            distinct_members(all.take(index as int));
        }
        if !contains_path(&result, &paths[index]) {
            push_item(&mut result, paths[index].clone());
        }
        index = index + 1;
    }
    assert(all.take(index as int) =~= all);
    result
}

/// The interpreters to try, in order.
pub fn python_candidates(
    explicit: &Option<FilePath>,
    virtual_environment: &Option<FilePath>,
    windows: bool,
) -> (candidates: Vec<FilePath>)
    ensures
        candidates.deep_view() == candidates_to_try(
            explicit.deep_view(),
            virtual_environment.deep_view(),
            windows,
        ),
{
    let mut candidates: Vec<FilePath> = Vec::new();
    assert(candidates.deep_view() =~= Seq::<FilePathView>::empty());
    if let Some(path) = explicit {
        push_item(&mut candidates, path.clone());
        assert(candidates.deep_view() =~= seq![path.deep_view()]);
        return candidates;
    }
    if let Some(root) = virtual_environment {
        if !root.text.as_str().is_empty() {
            let launcher = if windows {
                root.join("Scripts").join("python.exe")
            } else {
                root.join("bin").join("python")
            };
            push_item(&mut candidates, launcher);
            assert(candidates.deep_view() =~= seq![launcher.deep_view()]);
        }
    }
    push_item(&mut candidates, FilePath::new("python3"));
    push_item(&mut candidates, FilePath::new("python"));
    distinct_paths(candidates)
}

/// The path of the executable that starting `selected` starts. A bare name is the one found on
/// the search path; a relative path starts from the current directory, where that is known.
pub open spec fn invoked(
    selected: FilePathView,
    absolute: bool,
    bare: bool,
    found: Option<(FilePathView, bool)>,
    current: Option<FilePathView>,
) -> FilePathView {
    if absolute {
        selected
    } else if bare {
        match found {
            None => selected,
            Some((path, found_absolute)) => if found_absolute {
                path
            } else {
                rooted(path, current)
            },
        }
    } else {
        rooted(selected, current)
    }
}

/// A relative path seen from a directory.
pub open spec fn rooted(path: FilePathView, directory: Option<FilePathView>) -> FilePathView {
    match directory {
        None => path,
        Some(root) => FilePathView {
            utf8: root.utf8 && path.utf8,
            ..path_within(root, path.text)
        },
    }
}

fn root_path(path: &FilePath, directory: &Option<FilePath>) -> (result: FilePath)
    ensures
        result.deep_view() == rooted(path.deep_view(), directory.deep_view()),
{
    match directory {
        None => path.clone(),
        Some(root) => {
            let joined = root.join(path.text.as_str());
            FilePath { text: joined.text, utf8: root.utf8 && path.utf8 }
        },
    }
}

/// The arguments with which an interpreter is probed: isolated from the environment and the
/// current directory, without site packages, and with the program itself.
pub fn probe_arguments(script: &str) -> (arguments: Vec<String>)
    ensures
        arguments.deep_view() == seq!["-I"@, "-S"@, "-c"@, script@],
{
    let mut arguments: Vec<String> = Vec::new();
    push_item(&mut arguments, "-I".to_owned());
    push_item(&mut arguments, "-S".to_owned());
    push_item(&mut arguments, "-c".to_owned());
    push_item(&mut arguments, script.to_owned());
    assert(arguments.deep_view() =~= seq!["-I"@, "-S"@, "-c"@, script@]);
    arguments
}

// ---------------------------------------------------------------------------
// Directories above an interpreter

/// Where the components of a path begin: behind the root, or behind a leading `.`.
pub open spec fn body_start(path: Seq<char>) -> nat {
    if path.len() > 0 && (path[0] == '/' || (path[0] == '.' && (path.len() == 1 || path[1]
        == '/'))) {
        1
    } else {
        0
    }
}

/// `path` without separators and `.` components at its end, but for what stands before `start`.
pub open spec fn settled(path: Seq<char>, start: nat) -> Seq<char>
    decreases path.len(),
{
    if path.len() <= start {
        path
    } else if path.last() == '/' || (path.last() == '.' && (path.len() - 1 == start
        || path[path.len() - 2] == '/')) {
        settled(path.drop_last(), start)
    } else {
        path
    }
}

/// `path` without the name at its end and the separator before it, but for what stands before
/// `start`.
pub open spec fn without_name(path: Seq<char>, start: nat) -> Seq<char>
    decreases path.len(),
{
    if path.len() <= start {
        path
    } else if path.last() == '/' {
        path.drop_last()
    } else {
        without_name(path.drop_last(), start)
    }
}

/// The path of the directory that holds what a path leads to: the path without its last
/// component. The root and the empty path have none.
pub open spec fn parent_path(path: Seq<char>) -> Option<Seq<char>> {
    let start = body_start(path);
    let whole = settled(path, start);
    if whole.len() > start {
        Some(settled(without_name(whole, start), start))
    } else if start == 1 && path[0] == '.' {
        Some(Seq::empty())
    } else {
        None
    }
}

/// The directory above the one that holds an interpreter.
pub open spec fn root_above(path: Seq<char>) -> Option<Seq<char>> {
    match parent_path(path) {
        Some(directory) => parent_path(directory),
        None => None,
    }
}

fn find_body(path: &Vec<char>) -> (start: usize)
    ensures
        start == body_start(path@),
{
    if path.len() > 0 && (path[0] == '/' || (path[0] == '.' && (path.len() == 1 || path[1]
        == '/'))) {
        1
    } else {
        0
    }
}

fn settle(path: Vec<char>, start: usize) -> (result: Vec<char>)
    ensures
        result@ == settled(path@, start as nat),
{
    let ghost given = path@;
    let mut path = path;
    while path.len() > start && (path[path.len() - 1] == '/' || (path[path.len() - 1] == '.' && (
    path.len() - 1 == start || path[path.len() - 2] == '/')))
        invariant
            settled(path@, start as nat) == settled(given, start as nat),
        decreases path@.len(),
    {
        let ghost before = path@;
        path.pop();
        assert(path@ =~= before.drop_last());
    }
    path
}

fn cut_name(path: Vec<char>, start: usize) -> (result: Vec<char>)
    ensures
        result@ == without_name(path@, start as nat),
{
    let ghost given = path@;
    let mut path = path;
    while path.len() > start && path[path.len() - 1] != '/'
        invariant
            without_name(path@, start as nat) == without_name(given, start as nat),
        decreases path@.len(),
    {
        let ghost before = path@;
        path.pop();
        assert(path@ =~= before.drop_last());
    }
    if path.len() > start {
        let ghost before = path@;
        path.pop();
        assert(path@ =~= before.drop_last());
    }
    path
}

fn parent_of(path: Vec<char>) -> (parent: Option<Vec<char>>)
    ensures
        (match parent {
            Some(chars) => Some(chars@),
            None => None,
        }) == parent_path(path@),
{
    let start = find_body(&path);
    let relative = path.len() > 0 && path[0] == '.';
    let whole = settle(path, start);
    if whole.len() > start {
        Some(settle(cut_name(whole, start), start))
    } else if start == 1 && relative {
        Some(Vec::new())
    } else {
        None
    }
}

/// The directory above the one that holds the interpreter at `path`, where there is one.
pub fn interpreter_root(path: &FilePath) -> (root: Option<String>)
    ensures
        root.deep_view() == root_above(path.deep_view().text),
{
    match parent_of(to_chars(path.text.as_str())) {
        None => None,
        Some(directory) => match parent_of(directory) {
            None => None,
            Some(root) => Some(from_chars(&root, 0, root.len())),
        },
    }
}

/// The virtual environment that an executable stands in: the directory above the one that holds
/// it, where that is `configured` as one.
pub open spec fn environment_around(executable: FilePathView, configured: bool) -> Option<
    FilePathView,
> {
    match root_above(executable.text) {
        Some(text) => if configured {
            Some(FilePathView { text, utf8: executable.utf8 })
        } else {
            None
        },
        None => None,
    }
}

/// The virtual environment that an executable stands in: the directory above the one that holds
/// it, where that has a `pyvenv.cfg` that can be read.
pub fn infer_virtual_environment(executable: &FilePath, configured: bool) -> (root: Option<
    FilePath,
>)
    ensures
        root.deep_view() == environment_around(executable.deep_view(), configured),
{
    match interpreter_root(executable) {
        Some(text) => if configured {
            Some(FilePath { text, utf8: executable.utf8 })
        } else {
            None
        },
        None => None,
    }
}

/// The path of the executable that starting `selected` starts: `bare` tells a single name,
/// `found` is what the search path has for it and whether that path is absolute.
pub fn resolve_invoked_executable(
    selected: &FilePath,
    absolute: bool,
    bare: bool,
    found: &Option<(FilePath, bool)>,
    current: &Option<FilePath>,
) -> (path: FilePath)
    ensures
        path.deep_view() == invoked(
            selected.deep_view(),
            absolute,
            bare,
            found.deep_view(),
            current.deep_view(),
        ),
{
    if absolute {
        return selected.clone();
    }
    if bare {
        return match found {
            None => selected.clone(),
            Some((path, found_absolute)) => if *found_absolute {
                path.clone()
            } else {
                root_path(path, current)
            },
        };
    }
    root_path(selected, current)
}

// ---------------------------------------------------------------------------
// Search

/// What came of starting one interpreter.
#[derive(Debug, PartialEq, Eq)]
pub enum ProbeAttempt {
    /// The command could not be run to its end.
    NotRun(CommandError),
    /// The command ran to its end.
    Completed {
        /// Its output.
        output: CapturedOutput,
        /// What its standard output says, or why that is no report.
        report: Result<PythonProbeResult, String>,
        /// The path of the executable that was started.
        executable: FilePath,
        /// Whether the directory above the one that holds the executable has a `pyvenv.cfg`
        /// that can be read.
        configured: bool,
    },
}

/// The model of [`ProbeAttempt`].
pub enum ProbeAttemptView {
    NotRun(CommandErrorView),
    Completed {
        output: CapturedOutputView,
        report: Result<PythonProbeResultView, Seq<char>>,
        executable: FilePathView,
        configured: bool,
    },
}

impl DeepView for ProbeAttempt {
    type V = ProbeAttemptView;

    open spec fn deep_view(&self) -> ProbeAttemptView {
        match self {
            ProbeAttempt::NotRun(error) => ProbeAttemptView::NotRun(error.deep_view()),
            ProbeAttempt::Completed { output, report, executable, configured } =>
                ProbeAttemptView::Completed {
                output: output.deep_view(),
                report: outcome(*report),
                executable: executable.deep_view(),
                configured: *configured,
            },
        }
    }
}

/// Whether a text holds a character that a terminal must not be shown.
pub open spec fn holds_unsafe_character(text: Seq<char>) -> bool {
    exists|i: int| 0 <= i < text.len() && unsafe_terminal_character(#[trigger] text[i])
}

/// Whether a text holds a character that a terminal must not be shown.
pub fn has_unsafe_character(text: &str) -> (answer: bool)
    ensures
        answer == holds_unsafe_character(text@),
{
    let chars = to_chars(text);
    let mut index: usize = 0;
    while index < chars.len()
        invariant
            index <= chars@.len(),
            chars@ == text@,
            forall|i: int| 0 <= i < index ==> !unsafe_terminal_character(#[trigger] text@[i]),
        decreases chars@.len() - index,
    {
        if is_unsafe_terminal_character(chars[index]) {
            assert(unsafe_terminal_character(text@[index as int]));
            return true;
        }
        index = index + 1;
    }
    false
}

/// What one attempt yields: the interpreter, or why it cannot be used.
pub open spec fn attempt_result(
    candidate: FilePathView,
    attempt: ProbeAttemptView,
    glibc: Option<NumericVersionView>,
) -> Result<PythonInfoView, Seq<char>> {
    match attempt {
        ProbeAttemptView::NotRun(error) => Err(
            candidate.text + ": "@ + command_error_text(error),
        ),
        ProbeAttemptView::Completed { output, report, executable, configured } => {
            if !output.status.success {
                Err(
                    candidate.text + ": exited "@ + output.status.text + " ("@ + (bounded_text(
                        output.stderr,
                        256,
                    ) + ")"@),
                )
            } else {
                match report {
                    Err(message) => Err(candidate.text + ": invalid probe JSON: "@ + message),
                    Ok(probe) => match probed_python(probe, executable, configured, glibc) {
                        Err(message) => Err(candidate.text + ": "@ + message),
                        Ok(python) => if !python.executable.utf8 {
                            Err(candidate.text + ": selected Python path is not valid UTF-8"@)
                        } else if holds_unsafe_character(python.executable.text) {
                            Err("selected Python path contains a terminal-unsafe character"@)
                        } else {
                            Ok(python)
                        },
                    },
                }
            }
        },
    }
}

/// What one attempt yields.
pub fn judge_attempt(
    candidate: &FilePath,
    attempt: &ProbeAttempt,
    glibc: Option<&NumericVersion>,
) -> (result: Result<PythonInfo, String>)
    ensures
        outcome(result) == attempt_result(
            candidate.deep_view(),
            attempt.deep_view(),
            match glibc {
                Some(version) => Some(version.deep_view()),
                None => None,
            },
        ),
{
    match attempt {
        ProbeAttempt::NotRun(error) => Err(
            concat3(candidate.text.as_str(), ": ", error.to_string().as_str()),
        ),
        ProbeAttempt::Completed { output, report, executable, configured } => {
            if !output.status.success {
                let stderr = bounded_lossy(output.stderr.as_slice(), 256);
                return Err(
                    concat5(
                        candidate.text.as_str(),
                        ": exited ",
                        output.status.text.as_str(),
                        " (",
                        concat2(stderr.as_str(), ")").as_str(),
                    ),
                );
            }
            match report {
                Err(message) => Err(
                    concat3(candidate.text.as_str(), ": invalid probe JSON: ", message.as_str()),
                ),
                Ok(probe) => match python_info_from_probe(probe, executable, *configured, glibc) {
                    Err(message) => Err(
                        concat3(candidate.text.as_str(), ": ", message.as_str()),
                    ),
                    Ok(python) => if !python.executable.utf8 {
                        Err(
                            concat2(
                                candidate.text.as_str(),
                                ": selected Python path is not valid UTF-8",
                            ),
                        )
                    } else if has_unsafe_character(python.executable.text.as_str()) {
                        Err("selected Python path contains a terminal-unsafe character".to_owned())
                    } else {
                        Ok(python)
                    },
                },
            }
        },
    }
}

/// The interpreter that was found, and what is to be said about the search.
#[derive(Debug, PartialEq, Eq)]
pub struct PythonDetection {
    /// The interpreter, unless none can be used.
    pub info: Option<PythonInfo>,
    /// What is to be said.
    pub diagnostics: Vec<Diagnostic>,
}

/// The model of [`PythonDetection`].
#[verifier::ext_equal]
pub struct PythonDetectionView {
    pub info: Option<PythonInfoView>,
    pub diagnostics: Seq<DiagnosticView>,
}

impl DeepView for PythonDetection {
    type V = PythonDetectionView;

    open spec fn deep_view(&self) -> PythonDetectionView {
        PythonDetectionView {
            info: self.info.deep_view(),
            diagnostics: self.diagnostics.deep_view(),
        }
    }
}

/// What the search for an interpreter does next.
#[derive(Debug, PartialEq, Eq)]
pub enum PythonStep {
    /// The candidate at this place is to be started.
    Probe(usize),
    /// The search is over.
    Done(PythonDetection),
}

/// The model of [`PythonStep`].
pub enum PythonStepView {
    Probe(nat),
    Done(PythonDetectionView),
}

impl DeepView for PythonStep {
    type V = PythonStepView;

    open spec fn deep_view(&self) -> PythonStepView {
        match self {
            PythonStep::Probe(place) => PythonStepView::Probe(*place as nat),
            PythonStep::Done(detection) => PythonStepView::Done(detection.deep_view()),
        }
    }
}

/// How many candidates may be tried: only the first where one was asked for.
pub open spec fn tries_allowed(explicit: bool, candidates: nat) -> nat {
    if explicit && candidates > 1 {
        1
    } else {
        candidates
    }
}

/// The interpreter of the first attempt among the first `count` that yields one.
pub open spec fn first_usable(
    candidates: Seq<FilePathView>,
    attempts: Seq<ProbeAttemptView>,
    glibc: Option<NumericVersionView>,
    count: nat,
) -> Option<PythonInfoView>
    decreases count,
{
    if count == 0 {
        None
    } else {
        let before = (count - 1) as nat;
        match first_usable(candidates, attempts, glibc, before) {
            Some(python) => Some(python),
            None => match attempt_result(candidates[before as int], attempts[before as int], glibc) {
                Ok(python) => Some(python),
                Err(_) => None,
            },
        }
    }
}

/// What is said of an interpreter that was found.
pub open spec fn python_found(python: PythonInfoView) -> PythonDetectionView {
    PythonDetectionView {
        info: Some(python),
        diagnostics: if python.implementation != "cpython"@ {
            seq![
                noted(
                    plain_diagnostic(
                        DiagnosticCode::UnsupportedPythonImplementation,
                        DiagnosticSeverity::Error,
                    ),
                    "implementation"@,
                    python.implementation,
                ),
            ]
        } else {
            Seq::empty()
        },
    }
}

/// The texts of paths.
pub open spec fn path_texts(paths: Seq<FilePathView>) -> Seq<Seq<char>> {
    paths.map_values(|path: FilePathView| path.text)
}

/// What is said where no interpreter can be used.
pub open spec fn python_unavailable(
    candidates: Seq<FilePathView>,
    last_error: Option<Seq<char>>,
) -> PythonDetectionView {
    let plain = plain_diagnostic(DiagnosticCode::PythonUnavailable, DiagnosticSeverity::Error);
    let named = if candidates.len() > 0 {
        noted(plain, "candidates"@, join(path_texts(candidates), ","@))
    } else {
        plain
    };
    PythonDetectionView {
        info: None,
        diagnostics: seq![
            match last_error {
                Some(message) => noted(named, "last_error"@, truncated(message, 512)),
                None => named,
            },
        ],
    }
}

/// The step after `attempts`, one for each candidate tried so far.
pub open spec fn next_python_step(
    explicit: bool,
    candidates: Seq<FilePathView>,
    attempts: Seq<ProbeAttemptView>,
    glibc: Option<NumericVersionView>,
) -> PythonStepView {
    let allowed = tries_allowed(explicit, candidates.len());
    let count = if attempts.len() <= allowed {
        attempts.len()
    } else {
        allowed
    };
    match first_usable(candidates, attempts, glibc, count) {
        Some(python) => PythonStepView::Done(python_found(python)),
        None => if count < allowed {
            PythonStepView::Probe(count)
        } else {
            PythonStepView::Done(
                python_unavailable(
                    candidates,
                    if count == 0 {
                        None
                    } else {
                        match attempt_result(candidates[count - 1], attempts[count - 1], glibc) {
                            Err(message) => Some(message),
                            Ok(_) => None,
                        }
                    },
                ),
            )
        },
    }
}

fn list_paths(paths: &Vec<FilePath>) -> (text: String)
    ensures
        text@ == join(path_texts(paths.deep_view()), ","@),
{
    let ghost all = path_texts(paths.deep_view());
    let mut texts: Vec<String> = Vec::new();
    let mut index: usize = 0;
    while index < paths.len()
        invariant
            index <= paths@.len(),
            all == path_texts(paths.deep_view()),
            texts.deep_view() == all.take(index as int),
        decreases paths@.len() - index,
    {
        push_item(&mut texts, paths[index].text.clone());
        assert(all[index as int] == paths@[index as int].text@);
        assert(all.take(index + 1) =~= all.take(index as int).push(all[index as int]));
        index = index + 1;
    }
    assert(all.take(index as int) =~= all);
    join_texts(&texts, ",")
}

fn report_unavailable(candidates: &Vec<FilePath>, last_error: Option<String>) -> (detection:
    PythonDetection)
    ensures
        detection.deep_view() == python_unavailable(
            candidates.deep_view(),
            last_error.deep_view(),
        ),
{
    let mut diagnostic = Diagnostic::new(
        DiagnosticCode::PythonUnavailable,
        DiagnosticSeverity::Error,
    );
    assert(candidates.deep_view().len() == candidates@.len());
    if candidates.len() > 0 {
        diagnostic = diagnostic.with_detail("candidates", list_paths(candidates).as_str());
    }
    if let Some(message) = last_error {
        diagnostic = diagnostic.with_detail(
            "last_error",
            truncate_string(message.as_str(), 512).as_str(),
        );
    }
    let mut diagnostics: Vec<Diagnostic> = Vec::new();
    push_item(&mut diagnostics, diagnostic);
    assert(diagnostics.deep_view() =~= seq![diagnostic.deep_view()]);
    PythonDetection { info: None, diagnostics }
}

fn report_found(python: PythonInfo) -> (detection: PythonDetection)
    ensures
        detection.deep_view() == python_found(python.deep_view()),
{
    let mut diagnostics: Vec<Diagnostic> = Vec::new();
    assert(diagnostics.deep_view() =~= Seq::<DiagnosticView>::empty());
    if !same(python.implementation.as_str(), "cpython") {
        let diagnostic = Diagnostic::new(
            DiagnosticCode::UnsupportedPythonImplementation,
            DiagnosticSeverity::Error,
        ).with_detail("implementation", python.implementation.as_str());
        push_item(&mut diagnostics, diagnostic);
        assert(diagnostics.deep_view() =~= seq![diagnostic.deep_view()]);
    }
    PythonDetection { info: Some(python), diagnostics }
}

/// Decides what the search for an interpreter does after `attempts`, one for each candidate
/// tried so far.
pub fn detect_python(
    explicit: bool,
    candidates: &Vec<FilePath>,
    attempts: &Vec<ProbeAttempt>,
    glibc: Option<&NumericVersion>,
) -> (step: PythonStep)
    ensures
        step.deep_view() == next_python_step(
            explicit,
            candidates.deep_view(),
            attempts.deep_view(),
            match glibc {
                Some(version) => Some(version.deep_view()),
                None => None,
            },
        ),
{
    let ghost paths = candidates.deep_view();
    let ghost tried = attempts.deep_view();
    let ghost libc = match glibc {
        Some(version) => Some(version.deep_view()),
        None => None,
    };
    assert(paths.len() == candidates@.len() && tried.len() == attempts@.len());
    let allowed: usize = if explicit && candidates.len() > 1 {
        1
    } else {
        candidates.len()
    };
    let count: usize = if attempts.len() <= allowed {
        attempts.len()
    } else {
        allowed
    };
    let mut last_error: Option<String> = None;
    let mut index: usize = 0;
    while index < count
        invariant
            index <= count <= allowed,
            count <= attempts@.len(),
            count <= candidates@.len(),
            allowed == tries_allowed(explicit, candidates@.len()),
            count == (if attempts@.len() <= allowed {
                attempts@.len()
            } else {
                allowed as nat
            }),
            paths == candidates.deep_view(),
            tried == attempts.deep_view(),
            paths.len() == candidates@.len() && tried.len() == attempts@.len(),
            libc == (match glibc {
                Some(version) => Some(version.deep_view()),
                None => None,
            }),
            first_usable(paths, tried, libc, index as nat) is None,
            index == 0 ==> last_error is None,
            index > 0 ==> (last_error matches Some(message) && attempt_result(
                paths[index - 1],
                tried[index - 1],
                libc,
            ) == Err::<PythonInfoView, Seq<char>>(message@)),
        decreases count - index,
    {
        assert(paths[index as int] == candidates@[index as int].deep_view());
        assert(tried[index as int] == attempts@[index as int].deep_view());
        match judge_attempt(&candidates[index], &attempts[index], glibc) {
            Ok(python) => {
                proof {
                    assert(first_usable(paths, tried, libc, (index + 1) as nat) == Some(
                        python.deep_view(),
                    ));
                    usable_stays(paths, tried, libc, (index + 1) as nat, count as nat);
                }
                return PythonStep::Done(report_found(python));
            },
            Err(message) => {
                last_error = Some(message);
            },
        }
        index = index + 1;
    }
    if count < allowed {
        return PythonStep::Probe(count);
    }
    PythonStep::Done(report_unavailable(candidates, last_error))
}

proof fn usable_stays(
    candidates: Seq<FilePathView>,
    attempts: Seq<ProbeAttemptView>,
    glibc: Option<NumericVersionView>,
    count: nat,
    more: nat,
)
    requires
        count <= more,
        first_usable(candidates, attempts, glibc, count) is Some,
    ensures
        first_usable(candidates, attempts, glibc, more) == first_usable(
            candidates,
            attempts,
            glibc,
            count,
        ),
    decreases more,
{
    if count < more {
        usable_stays(candidates, attempts, glibc, count, (more - 1) as nat);
    }
}

/// An interpreter that was asked for is never replaced by another: whatever came of starting it,
/// no second candidate is started.
pub proof fn explicit_python_is_never_replaced(
    candidates: Seq<FilePathView>,
    attempts: Seq<ProbeAttemptView>,
    glibc: Option<NumericVersionView>,
)
    requires
        attempts.len() >= 1,
    ensures
        next_python_step(true, candidates, attempts, glibc) is Done,
{
}

/// The search ends once every candidate has been tried, and goes on while none could be used.
pub proof fn python_search_tries_every_candidate(
    candidates: Seq<FilePathView>,
    attempts: Seq<ProbeAttemptView>,
    glibc: Option<NumericVersionView>,
)
    ensures
        attempts.len() >= candidates.len() ==> next_python_step(false, candidates, attempts, glibc)
            is Done,
        attempts.len() < candidates.len() && first_usable(
            candidates,
            attempts,
            glibc,
            attempts.len(),
        ) is None ==> next_python_step(false, candidates, attempts, glibc)
            == PythonStepView::Probe(attempts.len()),
{
}

/// A detected interpreter has a path that can be shown and written down.
pub proof fn detected_python_path_is_safe(
    explicit: bool,
    candidates: Seq<FilePathView>,
    attempts: Seq<ProbeAttemptView>,
    glibc: Option<NumericVersionView>,
)
    ensures
        next_python_step(explicit, candidates, attempts, glibc) matches PythonStepView::Done(
            detection,
        ) ==> (detection.info matches Some(python) ==> python.executable.utf8
            && !holds_unsafe_character(python.executable.text)),
{
    let allowed = tries_allowed(explicit, candidates.len());
    let count = if attempts.len() <= allowed {
        attempts.len()
    } else {
        allowed
    };
    usable_is_safe(candidates, attempts, glibc, count);
}

proof fn usable_is_safe(
    candidates: Seq<FilePathView>,
    attempts: Seq<ProbeAttemptView>,
    glibc: Option<NumericVersionView>,
    count: nat,
)
    ensures
        first_usable(candidates, attempts, glibc, count) matches Some(python)
            ==> python.executable.utf8 && !holds_unsafe_character(python.executable.text),
    decreases count,
{
    if count > 0 {
        usable_is_safe(candidates, attempts, glibc, (count - 1) as nat);
    }
}

} // verus!
