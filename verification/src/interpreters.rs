//! What is found out about interpreters is what they report, and the first that can be used counts.

use crate::model::{path_of, DiagnosticCode, DiagnosticSeverity, FilePathView, TagSource};
use crate::order::{distinct, distinct_members, kept, kept_members};
use crate::pieces::{after_prefix, join, trimmed};
use crate::python::{
    attempt_result, builtin_tags, candidates_to_try, compatibility_tag, environment_around,
    first_usable, invoked, libc_platforms, manylinux, manylinux_range, next_python_step,
    parent_path, platform_tag, probed_python, reported_tags, root_above, settled, tags_for_platform,
    tags_for_platforms, with_if, without_name, ProbeAttemptView, PythonProbeResultView,
    PythonStepView,
};
use crate::text::{decimal, lowercase};
use crate::version::{component_at, component_texts, NumericVersionView};
use vstd::prelude::*;

verus! {

/// A report describes an interpreter exactly where its version has two to four numbers, its pointers
/// have 32 or 64 bits, and its platform and its implementation have names; and it describes the one
/// that was started, as it reports itself.
pub proof fn reports_describe_the_interpreter(
    probe: PythonProbeResultView,
    executable: FilePathView,
    configured: bool,
    glibc: Option<NumericVersionView>,
)
    ensures
        probed_python(probe, executable, configured, glibc) is Ok <==> {
            &&& 2 <= probe.version.len() <= 4
            &&& probe.pointer_width == 32 || probe.pointer_width == 64
            &&& trimmed(probe.platform).len() > 0
            &&& trimmed(probe.implementation).len() > 0
        },
        probed_python(probe, executable, configured, glibc) matches Ok(python) ==> {
            &&& python.executable == executable
            &&& python.implementation == lowercase(trimmed(probe.implementation))
            &&& python.version.components == probe.version
            &&& python.version.text == join(component_texts(probe.version), "."@)
            &&& python.platform == probe.platform
            &&& python.pointer_width == probe.pointer_width
            &&& python.free_threaded == probe.free_threaded
            &&& python.soabi == (match probe.soabi {
                Some(text) if trimmed(text).len() > 0 => Some(trimmed(text)),
                _ => None,
            })
            &&& python.cache_tag == (match probe.cache_tag {
                Some(text) if trimmed(text).len() > 0 => Some(trimmed(text)),
                _ => None,
            })
            &&& python.tag_source == TagSource::Packaging <==> probe.packaging_available
                && exists|i: int|
                0 <= i < probe.compatible_tags.len() && i < 8192 && compatibility_tag(
                    #[trigger] probe.compatible_tags[i],
                )
            &&& python.tag_source == TagSource::Packaging ==> forall|tag: Seq<char>|
                #![trigger python.compatible_tags.contains(tag)]
                python.compatible_tags.contains(tag) <==> exists|i: int|
                    0 <= i < probe.compatible_tags.len() && i < 8192
                        && #[trigger] probe.compatible_tags[i] == tag && compatibility_tag(tag)
            &&& python.tag_source != TagSource::Packaging ==> python.compatible_tags
                == builtin_tags(
                python.implementation,
                probe.version,
                probe.free_threaded,
                probe.platform,
                glibc,
            )
        },
{
    let tags = probe.compatible_tags;
    let taken = reported_tags(tags);
    assert forall|tag: Seq<char>| #[trigger] taken.contains(tag) <==> exists|i: int|
        0 <= i < tags.len() && i < 8192 && #[trigger] tags[i] == tag && compatibility_tag(tag) by {
        taken_over(tags, tag);
    }
    if exists|i: int|
        0 <= i < tags.len() && i < 8192 && compatibility_tag(#[trigger] tags[i]) {
        let i = choose|i: int|
            0 <= i < tags.len() && i < 8192 && compatibility_tag(#[trigger] tags[i]);
        assert(tags[i] == tags[i]);
        assert(taken.contains(tags[i]));
    }
    if taken.len() > 0 {
        assert(taken.contains(taken[0]));
        let i = choose|i: int|
            0 <= i < tags.len() && i < 8192 && #[trigger] tags[i] == taken[0] && compatibility_tag(
                taken[0],
            );
        assert(compatibility_tag(tags[i]));
    }
}

proof fn taken_over(tags: Seq<Seq<char>>, tag: Seq<char>)
    ensures
        reported_tags(tags).contains(tag) <==> exists|i: int|
            0 <= i < tags.len() && i < 8192 && #[trigger] tags[i] == tag && compatibility_tag(tag),
{
    let some = if tags.len() <= 8192 {
        tags
    } else {
        tags.take(8192)
    };
    let keep = |tag: Seq<char>| compatibility_tag(tag);
    let valid = kept(some, keep);
    distinct_members(valid);
    kept_members(some, keep, tag);
    assert(reported_tags(tags) == distinct(valid));
    if reported_tags(tags).contains(tag) {
        assert(valid.contains(tag));
        let i = choose|i: int| 0 <= i < some.len() && some[i] == tag;
        assert(tags[i] == tag);
    }
    if exists|i: int|
        0 <= i < tags.len() && i < 8192 && #[trigger] tags[i] == tag && compatibility_tag(tag) {
        let i = choose|i: int|
            0 <= i < tags.len() && i < 8192 && #[trigger] tags[i] == tag && compatibility_tag(tag);
        assert(some[i] == tag);
        assert(valid.contains(tag));
    }
}

// ---------------------------------------------------------------------------
// Tags

/// Whether an interpreter on `platform` runs what was built for the platform `tag`: its own platform
/// and, on Linux with the GNU C library of the second generation, the platforms of that library that
/// are not newer.
pub open spec fn platform_runs(
    platform: Seq<char>,
    glibc: Option<NumericVersionView>,
    tag: Seq<char>,
) -> bool {
    ||| tag == platform
    ||| glibc matches Some(libc) && "linux_"@.is_prefix_of(platform) && {
        let architecture = platform.skip(6);
        let minor = component_at(libc.components, 1) as nat;
        &&& component_at(libc.components, 0) == 2
        &&& minor >= 5
        &&& {
            ||| exists|older: nat|
                5 <= older <= minor && minor < older + 64 && tag == #[trigger] ("manylinux_2_"@
                    + decimal(older) + "_"@ + architecture)
            ||| minor >= 17 && tag == "manylinux2014_"@ + architecture
            ||| minor >= 12 && architecture == "x86_64"@ && tag == "manylinux2010_x86_64"@
            ||| architecture == "x86_64"@ && tag == "manylinux1_x86_64"@
        }
    }
}

proof fn pushed_members<T>(items: Seq<T>, item: T, other: T)
    ensures
        items.push(item).contains(other) <==> items.contains(other) || other == item,
{
    let longer = items.push(item);
    if items.contains(other) {
        let i = choose|i: int| 0 <= i < items.len() && items[i] == other;
        assert(longer[i] == other);
    }
    if other == item {
        assert(longer[items.len() as int] == other);
    }
    if longer.contains(other) {
        let i = choose|i: int| 0 <= i < longer.len() && longer[i] == other;
        if i < items.len() {
            assert(items[i] == other);
        }
    }
}

proof fn library_platforms_run(
    platform: Seq<char>,
    glibc: Option<NumericVersionView>,
    tag: Seq<char>,
)
    ensures
        libc_platforms(platform, glibc).push(platform).contains(tag) <==> platform_runs(
            platform,
            glibc,
            tag,
        ),
{
    reveal_strlit("linux_");
    let listed = libc_platforms(platform, glibc);
    pushed_members(listed, platform, tag);
    if let (Some(libc), Some(architecture)) = (glibc, after_prefix(platform, "linux_"@)) {
        let minor = component_at(libc.components, 1) as nat;
        let intel = architecture == "x86_64"@;
        assert(architecture == platform.skip(6));
        if component_at(libc.components, 0) == 2 && minor >= 5 {
            let range = manylinux_range(minor, architecture);
            let one = with_if(range, minor >= 17, "manylinux2014_"@ + architecture);
            let two = with_if(one, minor >= 12 && intel, "manylinux2010_x86_64"@);
            let three = with_if(two, intel, "manylinux1_x86_64"@);
            assert(listed == three);
            pushed_members(range, "manylinux2014_"@ + architecture, tag);
            pushed_members(one, "manylinux2010_x86_64"@, tag);
            pushed_members(two, "manylinux1_x86_64"@, tag);
            if range.contains(tag) {
                let i = choose|i: int| 0 <= i < range.len() && range[i] == tag;
                let older = (minor - i) as nat;
                assert(tag == "manylinux_2_"@ + decimal(older) + "_"@ + architecture);
            }
            if exists|older: nat|
                5 <= older <= minor && minor < older + 64 && tag == #[trigger] ("manylinux_2_"@
                    + decimal(older) + "_"@ + architecture) {
                let older = choose|older: nat|
                    5 <= older <= minor && minor < older + 64 && tag == #[trigger] (
                    "manylinux_2_"@ + decimal(older) + "_"@ + architecture);
                assert(range[minor - older] == manylinux(older, architecture));
                assert(range[minor - older] == tag);
            }
        }
    }
}

/// Whether a tag is one of an interpreter for `platform`.
pub open spec fn native_tag(
    interpreter: Seq<char>,
    free_threaded: bool,
    platform: Seq<char>,
    tag: Seq<char>,
) -> bool {
    ||| free_threaded && tag == interpreter + "-"@ + (interpreter + "t"@) + "-"@ + platform
    ||| !free_threaded && tag == interpreter + "-"@ + interpreter + "-"@ + platform
    ||| !free_threaded && tag == interpreter + "-abi3-"@ + platform
    ||| tag == interpreter + "-none-"@ + platform
}

proof fn platform_has_its_tags(
    interpreter: Seq<char>,
    free_threaded: bool,
    platform: Seq<char>,
    tag: Seq<char>,
)
    ensures
        tags_for_platform(interpreter, free_threaded, platform).contains(tag) <==> native_tag(
            interpreter,
            free_threaded,
            platform,
            tag,
        ),
{
    reveal_strlit("");
    assert(interpreter + ""@ =~= interpreter);
    let abi = interpreter + (if free_threaded {
        "t"@
    } else {
        ""@
    });
    let first = interpreter + "-"@ + abi + "-"@ + platform;
    let one = seq![first];
    let two = with_if(one, !free_threaded, interpreter + "-abi3-"@ + platform);
    pushed_members(one, interpreter + "-abi3-"@ + platform, tag);
    pushed_members(two, interpreter + "-none-"@ + platform, tag);
    assert(one.contains(tag) <==> tag == first) by {
        assert(one[0] == first);
    }
}

proof fn platforms_have_their_tags(
    interpreter: Seq<char>,
    free_threaded: bool,
    platforms: Seq<Seq<char>>,
    tag: Seq<char>,
)
    ensures
        tags_for_platforms(interpreter, free_threaded, platforms).contains(tag) <==> exists|i: int|
            0 <= i < platforms.len() && native_tag(
                interpreter,
                free_threaded,
                #[trigger] platforms[i],
                tag,
            ),
    decreases platforms.len(),
{
    if platforms.len() > 0 {
        let head = platforms.drop_last();
        let last = platforms[platforms.len() - 1];
        platforms_have_their_tags(interpreter, free_threaded, head, tag);
        platform_has_its_tags(interpreter, free_threaded, last, tag);
        let left = tags_for_platforms(interpreter, free_threaded, head);
        let right = tags_for_platform(interpreter, free_threaded, last);
        let both = left + right;
        if left.contains(tag) {
            let k = choose|k: int| 0 <= k < left.len() && left[k] == tag;
            assert(both[k] == tag);
            let i = choose|i: int|
                0 <= i < head.len() && native_tag(
                    interpreter,
                    free_threaded,
                    #[trigger] head[i],
                    tag,
                );
            assert(platforms[i] == head[i]);
        }
        if right.contains(tag) {
            let k = choose|k: int| 0 <= k < right.len() && right[k] == tag;
            assert(both[left.len() + k] == tag);
        }
        if both.contains(tag) {
            let k = choose|k: int| 0 <= k < both.len() && both[k] == tag;
            if k < left.len() {
                assert(left[k] == tag);
            } else {
                assert(right[k - left.len()] == tag);
            }
        }
        if exists|i: int|
            0 <= i < platforms.len() && native_tag(
                interpreter,
                free_threaded,
                #[trigger] platforms[i],
                tag,
            ) {
            let i = choose|i: int|
                0 <= i < platforms.len() && native_tag(
                    interpreter,
                    free_threaded,
                    #[trigger] platforms[i],
                    tag,
                );
            if i < head.len() {
                assert(head[i] == platforms[i]);
            }
        }
    }
}

/// The tags that are taken for an interpreter which lists none: those of CPython for every platform
/// whose code it runs, and those of pure packages for its major version.
pub proof fn builtin_tags_are_those_that_run(
    implementation: Seq<char>,
    version: Seq<u32>,
    free_threaded: bool,
    python_platform: Seq<char>,
    glibc: Option<NumericVersionView>,
    tag: Seq<char>,
)
    requires
        version.len() >= 2,
    ensures
        builtin_tags(implementation, version, free_threaded, python_platform, glibc).contains(tag)
            <==> {
            ||| tag == "py"@ + decimal(version[0] as nat) + "-none-any"@
            ||| version[0] == 3 && tag == "py3-none-any"@
            ||| implementation == "cpython"@ && exists|platform: Seq<char>|
                platform_runs(platform_tag(python_platform), glibc, platform)
                    && #[trigger] native_tag(
                    "cp"@ + decimal(version[0] as nat) + decimal(version[1] as nat),
                    free_threaded,
                    platform,
                    tag,
                )
        },
{
    let major = decimal(component_at(version, 0) as nat);
    let minor = decimal(component_at(version, 1) as nat);
    assert(component_at(version, 0) == version[0] && component_at(version, 1) == version[1]);
    let interpreter = "cp"@ + major + minor;
    let platform = platform_tag(python_platform);
    let platforms = libc_platforms(platform, glibc).push(platform);
    let native = if implementation == "cpython"@ {
        tags_for_platforms(interpreter, free_threaded, platforms)
    } else {
        Seq::empty()
    };
    let some = native.push("py"@ + major + "-none-any"@);
    let all = with_if(some, component_at(version, 0) == 3, "py3-none-any"@);
    distinct_members(all);
    pushed_members(native, "py"@ + major + "-none-any"@, tag);
    pushed_members(some, "py3-none-any"@, tag);
    assert(distinct(all).contains(tag) <==> all.contains(tag));
    platforms_have_their_tags(interpreter, free_threaded, platforms, tag);
    if implementation == "cpython"@ {
        if native.contains(tag) {
            let i = choose|i: int|
                0 <= i < platforms.len() && native_tag(
                    interpreter,
                    free_threaded,
                    #[trigger] platforms[i],
                    tag,
                );
            library_platforms_run(platform, glibc, platforms[i]);
            assert(platforms.contains(platforms[i]));
        }
        if exists|other: Seq<char>|
            platform_runs(platform, glibc, other) && #[trigger] native_tag(
                interpreter,
                free_threaded,
                other,
                tag,
            ) {
            let other = choose|other: Seq<char>|
                platform_runs(platform, glibc, other) && #[trigger] native_tag(
                    interpreter,
                    free_threaded,
                    other,
                    tag,
                );
            library_platforms_run(platform, glibc, other);
            let i = choose|i: int| 0 <= i < platforms.len() && platforms[i] == other;
            assert(native_tag(interpreter, free_threaded, platforms[i], tag));
        }
    }
}

/// The name of a platform in a tag is written with underscores in place of hyphens and dots, and in
/// lower case.
pub proof fn platform_tags_are_spelled(platform: Seq<char>, place: int)
    requires
        platform.len() > 0,
        !crate::text::whitespace(platform[0]),
        !crate::text::whitespace(platform.last()),
        0 <= place < platform.len(),
    ensures
        platform_tag(platform).len() == platform.len(),
        platform[place] == '-' || platform[place] == '.' ==> platform_tag(platform)[place] == '_',
        'A' <= platform[place] <= 'Z' ==> platform_tag(platform)[place] as int
            == platform[place] as int + 32,
        platform[place] != '-' && platform[place] != '.' && !('A' <= platform[place] <= 'Z')
            ==> platform_tag(platform)[place] == platform[place],
{
    assert(trimmed(platform) == platform);
}

// ---------------------------------------------------------------------------
// The search

/// Where an interpreter was asked for, it alone is tried. Else those of the active virtual
/// environment come before `python3`, and that before `python`.
pub proof fn interpreters_are_tried_in_order(
    explicit: FilePathView,
    root: FilePathView,
    windows: bool,
)
    requires
        root.text.len() > 0,
        root.text.last() != '/',
    ensures
        candidates_to_try(Some(explicit), Some(root), windows) == seq![explicit],
        candidates_to_try(None, None, windows) == seq![path_of("python3"@), path_of("python"@)],
        ({
            let launcher = FilePathView {
                text: root.text + "/"@ + (if windows {
                    "Scripts"@ + "/"@ + "python.exe"@
                } else {
                    "bin"@ + "/"@ + "python"@
                }),
                utf8: root.utf8,
            };
            candidates_to_try(None, Some(root), windows) == seq![
                launcher,
                path_of("python3"@),
                path_of("python"@),
            ]
        }),
{
    reveal_strlit("python3");
    reveal_strlit("python");
    reveal_strlit("Scripts");
    reveal_strlit("python.exe");
    reveal_strlit("bin");
    reveal_strlit("/");
    assert("python3"@.len() != "python"@.len());
    let plain = seq![path_of("python3"@), path_of("python"@)];
    assert(Seq::<FilePathView>::empty().push(path_of("python3"@)).push(path_of("python"@))
        =~= plain);
    distinct_items_stay(plain);
    let launcher = FilePathView {
        text: root.text + "/"@ + (if windows {
            "Scripts"@ + "/"@ + "python.exe"@
        } else {
            "bin"@ + "/"@ + "python"@
        }),
        utf8: root.utf8,
    };
    assert(crate::python::launcher_of(root, windows).text =~= launcher.text);
    assert(launcher.text.len() > "python3"@.len());
    let all = seq![launcher, path_of("python3"@), path_of("python"@)];
    assert(seq![launcher].push(path_of("python3"@)).push(path_of("python"@)) =~= all);
    distinct_items_stay(all);
}

proof fn distinct_items_stay<T>(items: Seq<T>)
    requires
        items.no_duplicates(),
    ensures
        distinct(items) == items,
    decreases items.len(),
{
    if items.len() > 0 {
        let head = items.drop_last();
        assert(head.no_duplicates());
        distinct_items_stay(head);
        assert(!head.contains(items.last())) by {
            if head.contains(items.last()) {
                let i = choose|i: int| 0 <= i < head.len() && head[i] == items.last();
                assert(items[i] == items[items.len() - 1]);
            }
        }
        assert(head.push(items.last()) =~= items);
    }
}

/// The interpreter that is found is that of the first attempt that yields one, and there is none
/// where no attempt does. One that is no CPython is an error.
pub proof fn the_first_usable_interpreter_is_taken(
    candidates: Seq<FilePathView>,
    attempts: Seq<ProbeAttemptView>,
    glibc: Option<NumericVersionView>,
    place: int,
)
    requires
        attempts.len() <= candidates.len(),
        0 <= place < attempts.len(),
        attempt_result(candidates[place], attempts[place], glibc) is Ok,
        forall|i: int|
            0 <= i < place ==> attempt_result(
                candidates[i],
                #[trigger] attempts[i],
                glibc,
            ) is Err,
    ensures
        next_python_step(false, candidates, attempts, glibc) matches PythonStepView::Done(detection)
            && detection.info == Some(
            attempt_result(candidates[place], attempts[place], glibc)->Ok_0,
        ) && (if detection.info->0.implementation == "cpython"@ {
            detection.diagnostics.len() == 0
        } else {
            detection.diagnostics.len() == 1 && detection.diagnostics[0].code
                == DiagnosticCode::UnsupportedPythonImplementation
                && detection.diagnostics[0].severity == DiagnosticSeverity::Error
        }),
{
    usable_attempt_is_found(candidates, attempts, glibc, place, attempts.len());
}

proof fn usable_attempt_is_found(
    candidates: Seq<FilePathView>,
    attempts: Seq<ProbeAttemptView>,
    glibc: Option<NumericVersionView>,
    place: int,
    count: nat,
)
    requires
        count <= attempts.len() <= candidates.len(),
        0 <= place < attempts.len(),
        attempt_result(candidates[place], attempts[place], glibc) is Ok,
        forall|i: int|
            0 <= i < place ==> attempt_result(
                candidates[i],
                #[trigger] attempts[i],
                glibc,
            ) is Err,
    ensures
        first_usable(candidates, attempts, glibc, count) == (if place < count {
            Some(attempt_result(candidates[place], attempts[place], glibc)->Ok_0)
        } else {
            None
        }),
    decreases count,
{
    if count > 0 {
        usable_attempt_is_found(candidates, attempts, glibc, place, (count - 1) as nat);
        assert(attempts[count - 1] == attempts[count - 1]);
    }
}

/// An attempt yields an interpreter exactly where the run succeeded, its report describes one, and
/// the path of what was started can be written down and shown.
pub proof fn attempts_yield_what_they_report(
    candidate: FilePathView,
    attempt: ProbeAttemptView,
    glibc: Option<NumericVersionView>,
)
    ensures
        attempt_result(candidate, attempt, glibc) is Ok <==> (attempt matches
            ProbeAttemptView::Completed { output, report, executable, configured }
            && output.status.success && (report matches Ok(probe) && probed_python(
            probe,
            executable,
            configured,
            glibc,
        ) is Ok) && executable.utf8 && forall|i: int|
            0 <= i < executable.text.len() ==> !crate::model::unsafe_terminal_character(
                #[trigger] executable.text[i],
            )),
        attempt_result(candidate, attempt, glibc) matches Ok(python) ==> (attempt matches
            ProbeAttemptView::Completed { report, executable, configured, .. } && probed_python(
            report->Ok_0,
            executable,
            configured,
            glibc,
        ) == Ok::<crate::model::PythonInfoView, Seq<char>>(python)),
{
}

/// Where nothing could be used, that is an error, and there is no interpreter.
pub proof fn nothing_usable_is_an_error(
    candidates: Seq<FilePathView>,
    attempts: Seq<ProbeAttemptView>,
    glibc: Option<NumericVersionView>,
)
    requires
        attempts.len() == candidates.len(),
        forall|i: int|
            0 <= i < attempts.len() ==> attempt_result(
                candidates[i],
                #[trigger] attempts[i],
                glibc,
            ) is Err,
    ensures
        next_python_step(false, candidates, attempts, glibc) matches PythonStepView::Done(detection)
            && detection.info is None && detection.diagnostics.len() == 1
            && detection.diagnostics[0].code == DiagnosticCode::PythonUnavailable
            && detection.diagnostics[0].severity == DiagnosticSeverity::Error,
{
    no_attempt_is_usable(candidates, attempts, glibc, attempts.len());
}

proof fn no_attempt_is_usable(
    candidates: Seq<FilePathView>,
    attempts: Seq<ProbeAttemptView>,
    glibc: Option<NumericVersionView>,
    count: nat,
)
    requires
        count <= attempts.len() == candidates.len(),
        forall|i: int|
            0 <= i < attempts.len() ==> attempt_result(
                candidates[i],
                #[trigger] attempts[i],
                glibc,
            ) is Err,
    ensures
        first_usable(candidates, attempts, glibc, count) is None,
    decreases count,
{
    if count > 0 {
        no_attempt_is_usable(candidates, attempts, glibc, (count - 1) as nat);
        assert(attempt_result(candidates[count - 1], attempts[count - 1], glibc) is Err);
    }
}

// ---------------------------------------------------------------------------
// Directories

/// Whether a text is the name of something in a directory.
pub open spec fn plain_name(name: Seq<char>) -> bool {
    name.len() > 0 && !name.contains('/') && name != seq!['.']
}

proof fn name_is_settled(path: Seq<char>, name: Seq<char>, start: nat)
    requires
        plain_name(name),
        path.len() == start || path.last() == '/',
        path.len() >= start,
    ensures
        settled(path + name, start) == path + name,
{
    let whole = path + name;
    let last = name[name.len() - 1];
    assert(whole.last() == last);
    assert(name.contains(last));
    if last == '.' {
        if name.len() == 1 {
            assert(name =~= seq!['.']);
        } else {
            let before = name[name.len() - 2];
            assert(whole[whole.len() - 2] == before);
            assert(name.contains(before));
        }
    }
}

proof fn name_is_left_out(path: Seq<char>, name: Seq<char>, start: nat)
    requires
        !name.contains('/'),
        path.len() > start,
        path.last() == '/',
    ensures
        without_name(path + name, start) == path.drop_last(),
    decreases name.len(),
{
    let whole = path + name;
    if name.len() == 0 {
        assert(whole =~= path);
    } else {
        let head = name.drop_last();
        assert(name.contains(name[name.len() - 1]));
        assert forall|i: int| 0 <= i < head.len() implies #[trigger] head[i] != '/' by {
            assert(name.contains(name[i]));
        }
        assert(whole.drop_last() =~= path + head);
        name_is_left_out(path, head, start);
    }
}

/// What stands in a directory has that directory above it; the interpreter of an environment stands
/// in a directory of it.
pub proof fn environments_are_above_their_interpreters(
    root: Seq<char>,
    directory: Seq<char>,
    name: Seq<char>,
)
    requires
        root.len() > 1,
        root[0] == '/',
        settled(root, 1) == root,
        plain_name(directory),
        plain_name(name),
    ensures
        parent_path(root + seq!['/'] + directory) == Some(root),
        root_above(root + seq!['/'] + directory + seq!['/'] + name) == Some(root),
{
    let inner = root + seq!['/'];
    let path = inner + directory;
    assert(inner.last() == '/');
    assert(inner.drop_last() =~= root);
    assert(path[0] == '/');
    name_is_settled(inner, directory, 1);
    name_is_left_out(inner, directory, 1);
    let deeper = path + seq!['/'];
    let whole = deeper + name;
    assert(whole[0] == '/');
    assert(deeper.last() == '/');
    assert(deeper.drop_last() =~= path);
    name_is_settled(deeper, name, 1);
    name_is_left_out(deeper, name, 1);
    assert(root + seq!['/'] + directory + seq!['/'] + name =~= whole);
}

/// Separators and dots at the end of a path make no difference to what is above it.
pub proof fn trailing_separators_make_no_difference(path: Seq<char>)
    requires
        path.len() > 1,
        path[0] == '/',
        path.last() != '/',
        path.last() != '.',
    ensures
        parent_path(path + seq!['/']) == parent_path(path),
        parent_path(path + seq!['/'] + seq!['.']) == parent_path(path),
{
    let one = path + seq!['/'];
    let two = one + seq!['.'];
    assert(one.drop_last() =~= path);
    assert(two.drop_last() =~= one);
    assert(one[0] == '/' && two[0] == '/');
    assert(settled(one, 1) == settled(path, 1));
    assert(two.last() == '.' && two[two.len() - 2] == '/');
    assert(settled(two, 1) == settled(one, 1));
}

/// What is started is the path itself where it is absolute. A bare name is what the search path
/// leads to, and a relative path starts from the current directory.
pub proof fn interpreters_are_started_where_they_are(
    selected: FilePathView,
    bare: bool,
    found: FilePathView,
    current: FilePathView,
)
    requires
        current.text.len() > 0,
        current.text.last() != '/',
    ensures
        invoked(selected, true, bare, Some((found, true)), Some(current)) == selected,
        invoked(selected, false, true, Some((found, true)), Some(current)) == found,
        invoked(selected, false, true, None, Some(current)) == selected,
        ({
            let started = invoked(selected, false, true, Some((found, false)), Some(current));
            started.text == current.text + "/"@ + found.text && started.utf8 == (current.utf8
                && found.utf8)
        }),
        ({
            let started = invoked(selected, false, false, Some((found, true)), Some(current));
            started.text == current.text + "/"@ + selected.text && started.utf8 == (current.utf8
                && selected.utf8)
        }),
        invoked(selected, false, false, Some((found, true)), None) == selected,
{
}

/// A virtual environment is found around an interpreter exactly where the directory above that of the
/// interpreter is configured as one.
pub proof fn environments_are_where_they_are_configured(
    executable: FilePathView,
    configured: bool,
)
    ensures
        match environment_around(executable, configured) {
            Some(root) => configured && root.utf8 == executable.utf8 && (parent_path(
                executable.text,
            ) matches Some(directory) && parent_path(directory) == Some(root.text)),
            None => !configured || (parent_path(executable.text) matches Some(directory)
                ==> parent_path(directory) is None),
        },
{
}

} // verus!
