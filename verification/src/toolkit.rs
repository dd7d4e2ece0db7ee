//! The CUDA toolkit: where it is looked for and which version it has.

use crate::command::{
    combined, combined_output, CapturedOutput, CapturedOutputView, CommandError, CommandErrorView,
};
use crate::host::{
    captured_version, first_numeric, first_numeric_version, numeric_prefix,
    parse_numeric_version_prefix, version_in,
};
use crate::model::{
    path_of, CudaToolkitInfo, CudaToolkitInfoView, FilePath, FilePathView, ToolkitSource,
};
use crate::nvidia::{reply_option, reply_view};
use crate::order::{sort_by, sort_values, Order};
use crate::outside::{
    capture_first, json_lookup, json_value, pattern_capture, JsonValue, JsonValueView,
};
use crate::pieces::starts_with;
use crate::version::{version_order, NumericVersion, NumericVersionView};
use vstd::prelude::*;

verus! {

/// The release that `nvcc` names.
pub const NVCC_RELEASE_PATTERN: &'static str = "(?i)\\brelease\\s+([0-9]+(?:\\.[0-9]+){1,2})";

/// The version that `nvcc` names where it names no release.
pub const NVCC_VERSION_PATTERN: &'static str = "\\bV([0-9]+(?:\\.[0-9]+){1,2})";

/// Where a toolkit usually stands.
pub const DEFAULT_TOOLKIT_ROOT: &'static str = "/usr/local/cuda";

/// The version of `release`, or else that of `version`.
pub open spec fn nvcc_named(
    release: Option<Seq<char>>,
    version: Option<Seq<char>>,
) -> Option<NumericVersionView> {
    match version_in(release) {
        Some(found) => Some(found),
        None => version_in(version),
    }
}

/// The version of the text after `release`, or else of the text after `V`.
pub fn choose_nvcc_version(release: &Option<String>, version: &Option<String>) -> (found: Option<
    NumericVersion,
>)
    ensures
        found.deep_view() == nvcc_named(release.deep_view(), version.deep_view()),
{
    match captured_version(release) {
        Some(found) => Some(found),
        None => captured_version(version),
    }
}

/// The version that the version output of `nvcc` names.
pub open spec fn nvcc_output_version(text: Seq<char>) -> Option<NumericVersionView> {
    nvcc_named(
        pattern_capture(NVCC_RELEASE_PATTERN@, text),
        pattern_capture(NVCC_VERSION_PATTERN@, text),
    )
}

/// The version that the version output of `nvcc` names.
pub fn parse_nvcc_output(text: &str) -> (version: Option<NumericVersion>)
    ensures
        version.deep_view() == nvcc_output_version(text@),
{
    let release = capture_first(NVCC_RELEASE_PATTERN, text);
    let version = capture_first(NVCC_VERSION_PATTERN, text);
    choose_nvcc_version(&release, &version)
}

/// The version that a run of `nvcc` tells, where it succeeded.
pub open spec fn nvcc_reply_version(reply: Result<CapturedOutputView, CommandErrorView>) -> Option<
    NumericVersionView,
> {
    match reply {
        Ok(output) if output.status.success => nvcc_output_version(combined(output)),
        _ => None,
    }
}

/// The version that a run of `nvcc` tells, where it succeeded.
pub fn nvcc_version(reply: &Result<CapturedOutput, CommandError>) -> (version: Option<
    NumericVersion,
>)
    ensures
        version.deep_view() == nvcc_reply_version(reply_view(*reply)),
{
    match reply {
        Ok(output) => if output.status.success {
            parse_nvcc_output(combined_output(output).as_str())
        } else {
            None
        },
        Err(_) => None,
    }
}

/// The version that a JSON value writes.
pub open spec fn json_version(value: Option<JsonValueView>) -> Option<NumericVersionView> {
    match value {
        Some(JsonValueView::Text(text)) => numeric_prefix(text),
        Some(JsonValueView::Number(text)) => numeric_prefix(text),
        _ => None,
    }
}

/// The version that a JSON value writes.
pub fn version_of_json(value: &Option<JsonValue>) -> (version: Option<NumericVersion>)
    ensures
        version.deep_view() == json_version(value.deep_view()),
{
    match value {
        Some(JsonValue::Text(text)) => parse_numeric_version_prefix(text.as_str()),
        Some(JsonValue::Number(text)) => parse_numeric_version_prefix(text.as_str()),
        _ => None,
    }
}

/// The version in a version document: that of CUDA, or else the one at the top.
pub open spec fn document_version(contents: Seq<char>) -> Option<NumericVersionView> {
    match json_value(contents, "/cuda/version"@) {
        Some(value) => json_version(Some(value)),
        None => json_version(json_value(contents, "/version"@)),
    }
}

/// The version in a version document.
pub fn parse_cuda_version_json(contents: &str) -> (version: Option<NumericVersion>)
    ensures
        version.deep_view() == document_version(contents@),
{
    let nested = json_lookup(contents, "/cuda/version");
    if nested.is_some() {
        return version_of_json(&nested);
    }
    let top = json_lookup(contents, "/version");
    version_of_json(&top)
}

/// The version that a version document tells, where there is one.
pub open spec fn read_document(document: Option<Seq<char>>) -> Option<NumericVersionView> {
    match document {
        Some(contents) => document_version(contents),
        None => None,
    }
}

/// The version that a version text tells, where there is one.
pub open spec fn read_text(text: Option<Seq<char>>) -> Option<NumericVersionView> {
    match text {
        Some(contents) => first_numeric(contents),
        None => None,
    }
}

/// How the version of the toolkit at a root is found out next.
#[derive(Debug, PartialEq, Eq)]
pub enum RootStep {
    /// The version document is to be read.
    ReadDocument,
    /// The version text is to be read.
    ReadText,
    /// The compiler is to be asked.
    AskCompiler,
    /// The version is known, or there is none.
    Done(Option<NumericVersion>),
}

/// The model of [`RootStep`].
pub enum RootStepView {
    ReadDocument,
    ReadText,
    AskCompiler,
    Done(Option<NumericVersionView>),
}

impl DeepView for RootStep {
    type V = RootStepView;

    open spec fn deep_view(&self) -> RootStepView {
        match self {
            RootStep::ReadDocument => RootStepView::ReadDocument,
            RootStep::ReadText => RootStepView::ReadText,
            RootStep::AskCompiler => RootStepView::AskCompiler,
            RootStep::Done(version) => RootStepView::Done(version.deep_view()),
        }
    }
}

/// What is done at a root after what was found there, `None` where it was not looked for yet:
/// the version document, the version text and the compiler are asked in this order, and the
/// first that tells a version counts.
pub open spec fn next_root_step(
    document: Option<Option<Seq<char>>>,
    text: Option<Option<Seq<char>>>,
    reply: Option<Result<CapturedOutputView, CommandErrorView>>,
) -> RootStepView {
    match document {
        None => RootStepView::ReadDocument,
        Some(contents) => match read_document(contents) {
            Some(version) => RootStepView::Done(Some(version)),
            None => match text {
                None => RootStepView::ReadText,
                Some(contents) => match read_text(contents) {
                    Some(version) => RootStepView::Done(Some(version)),
                    None => match reply {
                        None => RootStepView::AskCompiler,
                        Some(reply) => RootStepView::Done(nvcc_reply_version(reply)),
                    },
                },
            },
        },
    }
}

/// Decides how the version of the toolkit at a root is found out after what was found there.
pub fn toolkit_version_at_root(
    document: &Option<Option<String>>,
    text: &Option<Option<String>>,
    reply: &Option<Result<CapturedOutput, CommandError>>,
) -> (step: RootStep)
    ensures
        step.deep_view() == next_root_step(
            document.deep_view(),
            text.deep_view(),
            reply_option(*reply),
        ),
{
    match document {
        None => {
            return RootStep::ReadDocument;
        },
        Some(Some(contents)) => {
            if let Some(version) = parse_cuda_version_json(contents.as_str()) {
                return RootStep::Done(Some(version));
            }
        },
        Some(None) => {},
    }
    match text {
        None => {
            return RootStep::ReadText;
        },
        Some(Some(contents)) => {
            if let Some(version) = first_numeric_version(contents.as_str()) {
                return RootStep::Done(Some(version));
            }
        },
        Some(None) => {},
    }
    match reply {
        None => RootStep::AskCompiler,
        Some(reply) => RootStep::Done(nvcc_version(reply)),
    }
}

/// What was found out about a root stands, whatever else there is: what was not asked for does
/// not count.
pub proof fn found_version_stays(
    document: Option<Option<Seq<char>>>,
    text: Option<Option<Seq<char>>>,
    reply: Option<Result<CapturedOutputView, CommandErrorView>>,
    other_text: Option<Seq<char>>,
    other_reply: Result<CapturedOutputView, CommandErrorView>,
)
    requires
        next_root_step(document, text, reply) is Done,
    ensures
        next_root_step(
            document,
            match text {
                Some(contents) => Some(contents),
                None => Some(other_text),
            },
            match reply {
                Some(reply) => Some(reply),
                None => Some(other_reply),
            },
        ) == next_root_step(document, text, reply),
{
}

// ---------------------------------------------------------------------------
// Search

/// A toolkit that was found.
#[derive(Debug, PartialEq, Eq)]
pub struct FoundToolkit {
    /// Its version.
    pub version: NumericVersion,
    /// Its root.
    pub root: FilePath,
}

/// The model of [`FoundToolkit`].
#[verifier::ext_equal]
pub struct FoundToolkitView {
    pub version: NumericVersionView,
    pub root: FilePathView,
}

impl DeepView for FoundToolkit {
    type V = FoundToolkitView;

    open spec fn deep_view(&self) -> FoundToolkitView {
        FoundToolkitView {
            version: self.version.deep_view(),
            root: self.root.deep_view(),
        }
    }
}

impl Clone for FoundToolkit {
    fn clone(&self) -> (copy: FoundToolkit)
        ensures
            copy.deep_view() == self.deep_view(),
    {
        FoundToolkit {
            version: self.version.clone(),
            root: self.root.clone(),
        }
    }
}

/// A compiler that was found on the search path.
#[derive(Debug, PartialEq, Eq)]
pub struct FoundCompiler {
    /// Its version.
    pub version: NumericVersion,
    /// The root of the toolkit it belongs to.
    pub root: Option<FilePath>,
}

/// The model of [`FoundCompiler`].
#[verifier::ext_equal]
pub struct FoundCompilerView {
    pub version: NumericVersionView,
    pub root: Option<FilePathView>,
}

impl DeepView for FoundCompiler {
    type V = FoundCompilerView;

    open spec fn deep_view(&self) -> FoundCompilerView {
        FoundCompilerView {
            version: self.version.deep_view(),
            root: self.root.deep_view(),
        }
    }
}

impl Clone for FoundCompiler {
    fn clone(&self) -> (copy: FoundCompiler)
        ensures
            copy.deep_view() == self.deep_view(),
    {
        let root = match &self.root {
            Some(value) => Some(value.clone()),
            None => None,
        };
        FoundCompiler {
            version: self.version.clone(),
            root,
        }
    }
}

/// A path that can be written down.
pub open spec fn exact_path(path: FilePathView) -> Option<FilePathView> {
    if path.utf8 {
        Some(path)
    } else {
        None
    }
}

/// A path that can be written down.
pub fn utf8_path(path: FilePath) -> (result: Option<FilePath>)
    ensures
        result.deep_view() == exact_path(path.deep_view()),
{
    if path.utf8 {
        Some(path)
    } else {
        None
    }
}

/// Whether `left` is an older toolkit than `right`.
pub open spec fn older() -> spec_fn(FoundToolkitView, FoundToolkitView) -> bool {
    |left: FoundToolkitView, right: FoundToolkitView|
        version_order(left.version.components, right.version.components) == Order::Less
}

/// What the search for a toolkit has found so far; `None` where it has not looked yet.
#[derive(Debug, PartialEq, Eq)]
pub struct ToolkitAnswers {
    /// The toolkit at `CUDA_HOME`.
    pub home: Option<Option<FoundToolkit>>,
    /// The toolkit at `CUDA_PATH`.
    pub path: Option<Option<FoundToolkit>>,
    /// The compiler on the search path.
    pub compiler: Option<Option<FoundCompiler>>,
    /// The version at the usual place.
    pub default_root: Option<Option<NumericVersion>>,
    /// The toolkits at versioned places.
    pub versioned: Option<Vec<FoundToolkit>>,
}

/// The model of [`ToolkitAnswers`].
#[verifier::ext_equal]
pub struct ToolkitAnswersView {
    pub home: Option<Option<FoundToolkitView>>,
    pub path: Option<Option<FoundToolkitView>>,
    pub compiler: Option<Option<FoundCompilerView>>,
    pub default_root: Option<Option<NumericVersionView>>,
    pub versioned: Option<Seq<FoundToolkitView>>,
}

impl DeepView for ToolkitAnswers {
    type V = ToolkitAnswersView;

    open spec fn deep_view(&self) -> ToolkitAnswersView {
        ToolkitAnswersView {
            home: self.home.deep_view(),
            path: self.path.deep_view(),
            compiler: self.compiler.deep_view(),
            default_root: self.default_root.deep_view(),
            versioned: self.versioned.deep_view(),
        }
    }
}

/// What the search for a toolkit does next.
#[derive(Debug, PartialEq, Eq)]
pub enum ToolkitStep {
    /// `CUDA_HOME` is to be looked at.
    LookAtHome,
    /// `CUDA_PATH` is to be looked at.
    LookAtPath,
    /// The search path is to be looked at.
    LookForCompiler,
    /// The usual place is to be looked at.
    LookAtDefault,
    /// The versioned places are to be looked at.
    LookAtVersioned,
    /// The search is over.
    Done(Option<CudaToolkitInfo>),
}

/// The model of [`ToolkitStep`].
pub enum ToolkitStepView {
    LookAtHome,
    LookAtPath,
    LookForCompiler,
    LookAtDefault,
    LookAtVersioned,
    Done(Option<CudaToolkitInfoView>),
}

impl DeepView for ToolkitStep {
    type V = ToolkitStepView;

    open spec fn deep_view(&self) -> ToolkitStepView {
        match self {
            ToolkitStep::LookAtHome => ToolkitStepView::LookAtHome,
            ToolkitStep::LookAtPath => ToolkitStepView::LookAtPath,
            ToolkitStep::LookForCompiler => ToolkitStepView::LookForCompiler,
            ToolkitStep::LookAtDefault => ToolkitStepView::LookAtDefault,
            ToolkitStep::LookAtVersioned => ToolkitStepView::LookAtVersioned,
            ToolkitStep::Done(toolkit) => ToolkitStepView::Done(toolkit.deep_view()),
        }
    }
}

/// What is reported of a toolkit.
pub open spec fn toolkit_at(found: FoundToolkitView, source: ToolkitSource) -> CudaToolkitInfoView {
    CudaToolkitInfoView { version: found.version, root: exact_path(found.root), source }
}

/// The newest of several toolkits, the first of equal ones.
pub open spec fn newest(found: Seq<FoundToolkitView>) -> Option<CudaToolkitInfoView> {
    if found.len() == 0 {
        None
    } else {
        Some(toolkit_at(sort_by(found, older())[0], ToolkitSource::VersionJson))
    }
}

/// The newest of several toolkits, the first of equal ones.
pub fn newest_toolkit(found: Vec<FoundToolkit>) -> (toolkit: Option<CudaToolkitInfo>)
    ensures
        toolkit.deep_view() == newest(found.deep_view()),
{
    let mut sorted = found;
    proof {
        crate::order::sort_keeps_items(sorted.deep_view(), older());
    }
    assert(sorted.deep_view().len() == sorted@.len());
    let after = |left: &FoundToolkit, right: &FoundToolkit| -> (follows: bool)
        ensures
            follows == (version_order(
                left.deep_view().version.components,
                right.deep_view().version.components,
            ) == Order::Less),
        { left.version.order(&right.version) == Order::Less };
    sort_values(&mut sorted, after, Ghost(older()));
    assert(sorted.deep_view().len() == sorted@.len());
    if sorted.len() == 0 {
        return None;
    }
    assert(sorted.deep_view()[0] == sorted@[0].deep_view());
    let best = sorted[0].clone();
    Some(
        CudaToolkitInfo {
            version: best.version,
            root: utf8_path(best.root),
            source: ToolkitSource::VersionJson,
        },
    )
}

/// What the search does after what it has found: `CUDA_HOME`, `CUDA_PATH`, the compiler on the
/// search path, the usual place and the versioned places are looked at in this order, and the
/// first that has a toolkit counts.
pub open spec fn next_toolkit_step(answers: ToolkitAnswersView) -> ToolkitStepView {
    match answers.home {
        None => ToolkitStepView::LookAtHome,
        Some(Some(found)) => ToolkitStepView::Done(
            Some(toolkit_at(found, ToolkitSource::CudaHome)),
        ),
        Some(None) => match answers.path {
            None => ToolkitStepView::LookAtPath,
            Some(Some(found)) => ToolkitStepView::Done(
                Some(toolkit_at(found, ToolkitSource::CudaPath)),
            ),
            Some(None) => match answers.compiler {
                None => ToolkitStepView::LookForCompiler,
                Some(Some(found)) => ToolkitStepView::Done(
                    Some(
                        CudaToolkitInfoView {
                            version: found.version,
                            root: match found.root {
                                Some(root) => exact_path(root),
                                None => None,
                            },
                            source: ToolkitSource::Nvcc,
                        },
                    ),
                ),
                Some(None) => match answers.default_root {
                    None => ToolkitStepView::LookAtDefault,
                    Some(Some(version)) => ToolkitStepView::Done(
                        Some(
                            CudaToolkitInfoView {
                                version,
                                root: Some(path_of(DEFAULT_TOOLKIT_ROOT@)),
                                source: ToolkitSource::VersionJson,
                            },
                        ),
                    ),
                    Some(None) => match answers.versioned {
                        None => ToolkitStepView::LookAtVersioned,
                        Some(found) => ToolkitStepView::Done(newest(found)),
                    },
                },
            },
        },
    }
}

/// Whether a toolkit is looked for in the directory `name` beside the usual place.
pub fn is_versioned_root(name: &str) -> (answer: bool)
    ensures
        answer == "cuda-"@.is_prefix_of(name@),
{
    starts_with(name, "cuda-")
}

/// Decides what the search for a toolkit does after what it has found.
pub fn detect_cuda_toolkit(answers: ToolkitAnswers) -> (step: ToolkitStep)
    ensures
        step.deep_view() == next_toolkit_step(answers.deep_view()),
{
    match answers.home {
        None => {
            return ToolkitStep::LookAtHome;
        },
        Some(Some(found)) => {
            return ToolkitStep::Done(
                Some(
                    CudaToolkitInfo {
                        version: found.version,
                        root: utf8_path(found.root),
                        source: ToolkitSource::CudaHome,
                    },
                ),
            );
        },
        Some(None) => {},
    }
    match answers.path {
        None => {
            return ToolkitStep::LookAtPath;
        },
        Some(Some(found)) => {
            return ToolkitStep::Done(
                Some(
                    CudaToolkitInfo {
                        version: found.version,
                        root: utf8_path(found.root),
                        source: ToolkitSource::CudaPath,
                    },
                ),
            );
        },
        Some(None) => {},
    }
    match answers.compiler {
        None => {
            return ToolkitStep::LookForCompiler;
        },
        Some(Some(found)) => {
            return ToolkitStep::Done(
                Some(
                    CudaToolkitInfo {
                        version: found.version,
                        root: match found.root {
                            Some(root) => utf8_path(root),
                            None => None,
                        },
                        source: ToolkitSource::Nvcc,
                    },
                ),
            );
        },
        Some(None) => {},
    }
    match answers.default_root {
        None => {
            return ToolkitStep::LookAtDefault;
        },
        Some(Some(version)) => {
            return ToolkitStep::Done(
                Some(
                    CudaToolkitInfo {
                        version,
                        root: Some(FilePath::new(DEFAULT_TOOLKIT_ROOT)),
                        source: ToolkitSource::VersionJson,
                    },
                ),
            );
        },
        Some(None) => {},
    }
    match answers.versioned {
        None => ToolkitStep::LookAtVersioned,
        Some(found) => ToolkitStep::Done(newest_toolkit(found)),
    }
}

/// The toolkit that is chosen among versioned ones is not older than any of them.
pub proof fn newest_is_not_older(found: Seq<FoundToolkitView>, place: int)
    requires
        0 < place < found.len(),
    ensures
        !older()(sort_by(found, older())[0], sort_by(found, older())[place]),
{
    let after = older();
    assert forall|a: FoundToolkitView, b: FoundToolkitView| #[trigger] after(a, b) implies !after(
        b,
        a,
    ) by {
        crate::version::version_order_total(a.version.components, b.version.components);
    }
    assert forall|a: FoundToolkitView, b: FoundToolkitView, c: FoundToolkitView|
        #![trigger after(a, b), after(b, c)]
        !after(a, b) && !after(b, c) implies !after(a, c) by {
        crate::version::version_order_total(a.version.components, b.version.components);
        crate::version::version_order_total(b.version.components, c.version.components);
        crate::version::version_order_total(a.version.components, c.version.components);
        if after(a, c) {
            crate::version::version_order_transitive(
                b.version.components,
                a.version.components,
                c.version.components,
            );
        }
    }
    crate::order::sort_orders_all(found, after, 0, place);
}

} // verus!
