//! Reviewed compatibility data: driver minimums, release configurations, GPU architecture
//! evidence, and the validation they must pass before use.

use crate::model::{
    parsed_capability, variant_text, ComputeCapability, CudaVariant,
};
use crate::order::{sort_by, sort_keeps_items, sort_values, Order};
use crate::outside::{is_pep440, normalize_version, order_versions, pep440_order, pep440_text};
use crate::pieces::{before, part_before, split, split_on, trim, trimmed};
use crate::text::{
    clone_optional, clone_texts, concat2, concat3, concat4, lowercase, push_item, same, same_texts,
    to_lowercase,
};
use crate::version::{version_error_text, NumericVersion, NumericVersionView};
use std::str::FromStr;
use vstd::prelude::*;

verus! {

/// Optional companion packages supported by generated install commands.
#[derive(Debug, Clone, Copy, PartialEq, Eq, PartialOrd, Ord, Structural)]
pub enum CompanionPackage {
    /// `torchvision`.
    Torchvision,
    /// `torchaudio`.
    Torchaudio,
}

/// The distribution name of a companion package.
pub open spec fn companion_name(package: CompanionPackage) -> Seq<char> {
    match package {
        CompanionPackage::Torchvision => "torchvision"@,
        CompanionPackage::Torchaudio => "torchaudio"@,
    }
}

/// The companion package that `text` names, ignoring case and white space around it.
pub open spec fn companion_named(text: Seq<char>) -> Option<CompanionPackage> {
    let name = lowercase(trimmed(text));
    if name == "torchvision"@ {
        Some(CompanionPackage::Torchvision)
    } else if name == "torchaudio"@ {
        Some(CompanionPackage::Torchaudio)
    } else {
        None
    }
}

impl CompanionPackage {
    /// Normalized distribution name.
    pub fn as_str(self) -> (name: &'static str)
        ensures
            name@ == companion_name(self),
    {
        match self {
            CompanionPackage::Torchvision => "torchvision",
            CompanionPackage::Torchaudio => "torchaudio",
        }
    }

    /// Parses the name of a companion package.
    pub fn parse(value: &str) -> (result: Result<CompanionPackage, ResolverError>)
        ensures
            result matches Ok(package) ==> companion_named(value@) == Some(package),
            result matches Err(error) ==> companion_named(value@) is None && error.deep_view()
                == ResolverErrorView::UnsupportedCompanion(value@),
    {
        let bare = trim(value);
        let name = to_lowercase(bare.as_str());
        if same(name.as_str(), "torchvision") {
            Ok(CompanionPackage::Torchvision)
        } else if same(name.as_str(), "torchaudio") {
            Ok(CompanionPackage::Torchaudio)
        } else {
            Err(ResolverError::UnsupportedCompanion(value.to_owned()))
        }
    }
}

impl FromStr for CompanionPackage {
    type Err = ResolverError;

    fn from_str(value: &str) -> (result: Result<CompanionPackage, ResolverError>)
        ensures
            result matches Ok(package) ==> companion_named(value@) == Some(package),
            result matches Err(error) ==> companion_named(value@) is None && error.deep_view()
                == ResolverErrorView::UnsupportedCompanion(value@),
    {
        CompanionPackage::parse(value)
    }
}

/// Resolver failure caused by malformed static data or user input.
#[derive(Debug)]
pub enum ResolverError {
    /// Detection produced one or more explicit blocking diagnostics.
    InvalidEnvironment(String),
    /// Embedded data did not satisfy its schema.
    InvalidData(String),
    /// A version constraint was not valid PEP 440.
    InvalidVersionSpecifier {
        /// Original user input.
        value: String,
        /// Parser diagnostic.
        message: String,
    },
    /// A wheel contained an invalid PEP 440 version after index normalization.
    InvalidWheelVersion(String),
    /// `--with` named a package outside the supported compatibility table.
    UnsupportedCompanion(String),
    /// An install command could not be generated without a selected Python.
    PythonRequired,
    /// A selected interpreter path cannot be represented in the JSON/command contract.
    NonUtf8PythonPath,
    /// A selected interpreter path would make the displayed shell command unsafe or ambiguous.
    UnsafePythonPath,
    /// Companion version mapping is unavailable for this PyTorch release.
    CompanionMappingMissing {
        /// Requested companion distribution.
        package: &'static str,
        /// Selected PyTorch public version.
        torch_version: String,
    },
}

/// The model of [`ResolverError`].
#[verifier::ext_equal]
pub enum ResolverErrorView {
    InvalidEnvironment(Seq<char>),
    InvalidData(Seq<char>),
    InvalidVersionSpecifier { value: Seq<char>, message: Seq<char> },
    InvalidWheelVersion(Seq<char>),
    UnsupportedCompanion(Seq<char>),
    PythonRequired,
    NonUtf8PythonPath,
    UnsafePythonPath,
    CompanionMappingMissing { package: Seq<char>, torch_version: Seq<char> },
}

impl DeepView for ResolverError {
    type V = ResolverErrorView;

    open spec fn deep_view(&self) -> ResolverErrorView {
        match self {
            ResolverError::InvalidEnvironment(codes) => ResolverErrorView::InvalidEnvironment(
                codes@,
            ),
            ResolverError::InvalidData(message) => ResolverErrorView::InvalidData(message@),
            ResolverError::InvalidVersionSpecifier { value, message } => {
                ResolverErrorView::InvalidVersionSpecifier { value: value@, message: message@ }
            },
            ResolverError::InvalidWheelVersion(version) => ResolverErrorView::InvalidWheelVersion(
                version@,
            ),
            ResolverError::UnsupportedCompanion(name) => ResolverErrorView::UnsupportedCompanion(
                name@,
            ),
            ResolverError::PythonRequired => ResolverErrorView::PythonRequired,
            ResolverError::NonUtf8PythonPath => ResolverErrorView::NonUtf8PythonPath,
            ResolverError::UnsafePythonPath => ResolverErrorView::UnsafePythonPath,
            ResolverError::CompanionMappingMissing { package, torch_version } => {
                ResolverErrorView::CompanionMappingMissing {
                    package: package@,
                    torch_version: torch_version@,
                }
            },
        }
    }
}

/// The message of a resolver error.
pub open spec fn resolver_error_text(error: ResolverErrorView) -> Seq<char> {
    match error {
        ResolverErrorView::InvalidEnvironment(codes) => {
            "environment contains blocking diagnostics: "@ + codes
        },
        ResolverErrorView::InvalidData(message) => {
            "invalid embedded compatibility data: "@ + message
        },
        ResolverErrorView::InvalidVersionSpecifier { value, message } => {
            "invalid PyTorch version specifier `"@ + value + "`: "@ + message
        },
        ResolverErrorView::InvalidWheelVersion(version) => {
            "invalid normalized wheel version `"@ + version
        },
        ResolverErrorView::UnsupportedCompanion(name) => "unsupported companion package: "@ + name,
        ResolverErrorView::PythonRequired => {
            "a Python interpreter is required to generate an install command"@
        },
        ResolverErrorView::NonUtf8PythonPath => "the selected Python path is not valid UTF-8"@,
        ResolverErrorView::UnsafePythonPath => {
            "the selected Python path contains a terminal-unsafe control, format, or separator character"@
        },
        ResolverErrorView::CompanionMappingMissing { package, torch_version } => {
            "no verified "@ + package + " mapping for PyTorch "@ + torch_version
        },
    }
}

impl ResolverError {
    /// The message of the error.
    pub fn to_string(&self) -> (text: String)
        ensures
            text@ == resolver_error_text(self.deep_view()),
    {
        match self {
            ResolverError::InvalidEnvironment(codes) => concat2(
                "environment contains blocking diagnostics: ",
                codes.as_str(),
            ),
            ResolverError::InvalidData(message) => concat2(
                "invalid embedded compatibility data: ",
                message.as_str(),
            ),
            ResolverError::InvalidVersionSpecifier { value, message } => concat4(
                "invalid PyTorch version specifier `",
                value.as_str(),
                "`: ",
                message.as_str(),
            ),
            ResolverError::InvalidWheelVersion(version) => concat2(
                "invalid normalized wheel version `",
                version.as_str(),
            ),
            ResolverError::UnsupportedCompanion(name) => concat2(
                "unsupported companion package: ",
                name.as_str(),
            ),
            ResolverError::PythonRequired => {
                "a Python interpreter is required to generate an install command".to_owned()
            },
            ResolverError::NonUtf8PythonPath => {
                "the selected Python path is not valid UTF-8".to_owned()
            },
            ResolverError::UnsafePythonPath => {
                "the selected Python path contains a terminal-unsafe control, format, or separator character".to_owned()
            },
            ResolverError::CompanionMappingMissing { package, torch_version } => concat4(
                "no verified ",
                package,
                " mapping for PyTorch ",
                torch_version.as_str(),
            ),
        }
    }
}

/// Driver minimum of a CUDA major version.
#[derive(Debug)]
pub struct DriverFamilyRule {
    /// CUDA major version.
    pub cuda_major: u16,
    /// Lowest driver of the family on Linux.
    pub linux_min_driver: NumericVersion,
}

/// The model of [`DriverFamilyRule`].
#[verifier::ext_equal]
pub struct DriverFamilyRuleView {
    pub cuda_major: u16,
    pub linux_min_driver: NumericVersionView,
}

impl DeepView for DriverFamilyRule {
    type V = DriverFamilyRuleView;

    open spec fn deep_view(&self) -> DriverFamilyRuleView {
        DriverFamilyRuleView {
            cuda_major: self.cuda_major,
            linux_min_driver: self.linux_min_driver.deep_view(),
        }
    }
}

impl Clone for DriverFamilyRule {
    fn clone(&self) -> (copy: DriverFamilyRule)
        ensures
            copy.deep_view() == self.deep_view(),
    {
        DriverFamilyRule {
            cuda_major: self.cuda_major,
            linux_min_driver: self.linux_min_driver.clone(),
        }
    }
}

/// Normal driver minimum of one CUDA release.
#[derive(Debug)]
pub struct DriverVariantRule {
    /// The wheel variant.
    pub variant: CudaVariant,
    /// Normal driver minimum on Linux.
    pub linux_min_driver: NumericVersion,
}

/// The model of [`DriverVariantRule`].
#[verifier::ext_equal]
pub struct DriverVariantRuleView {
    pub variant: CudaVariant,
    pub linux_min_driver: NumericVersionView,
}

impl DeepView for DriverVariantRule {
    type V = DriverVariantRuleView;

    open spec fn deep_view(&self) -> DriverVariantRuleView {
        DriverVariantRuleView {
            variant: self.variant,
            linux_min_driver: self.linux_min_driver.deep_view(),
        }
    }
}

impl Clone for DriverVariantRule {
    fn clone(&self) -> (copy: DriverVariantRule)
        ensures
            copy.deep_view() == self.deep_view(),
    {
        DriverVariantRule {
            variant: self.variant,
            linux_min_driver: self.linux_min_driver.clone(),
        }
    }
}

/// Driver compatibility data.
#[derive(Debug)]
pub struct DriverRules {
    /// Version of the data's layout.
    pub schema_version: u32,
    /// Minimums by CUDA major version.
    pub families: Vec<DriverFamilyRule>,
    /// Minimums by CUDA release.
    pub variants: Vec<DriverVariantRule>,
}

/// The model of [`DriverRules`].
#[verifier::ext_equal]
pub struct DriverRulesView {
    pub schema_version: u32,
    pub families: Seq<DriverFamilyRuleView>,
    pub variants: Seq<DriverVariantRuleView>,
}

impl DeepView for DriverRules {
    type V = DriverRulesView;

    open spec fn deep_view(&self) -> DriverRulesView {
        DriverRulesView {
            schema_version: self.schema_version,
            families: self.families.deep_view(),
            variants: self.variants.deep_view(),
        }
    }
}

impl Clone for DriverRules {
    fn clone(&self) -> (copy: DriverRules)
        ensures
            copy.deep_view() == self.deep_view(),
    {
        let families = self.families.clone();
        assert(families.deep_view() =~= self.families.deep_view());
        let variants = self.variants.clone();
        assert(variants.deep_view() =~= self.variants.deep_view());
        DriverRules {
            schema_version: self.schema_version,
            families,
            variants,
        }
    }
}

/// Reviewed configurations of one PyTorch release series.
#[derive(Debug)]
pub struct ReleaseRule {
    /// Release series, such as `2.13`.
    pub series: String,
    /// The variant that the release prefers.
    pub preferred_variant: CudaVariant,
    /// The variants of the release, in order of preference.
    pub variants: Vec<CudaVariant>,
    /// Minor version of the matching torchvision.
    pub torchvision_minor: Option<u16>,
    /// Series of the matching torchaudio.
    pub torchaudio_series: Option<String>,
}

/// The model of [`ReleaseRule`].
#[verifier::ext_equal]
pub struct ReleaseRuleView {
    pub series: Seq<char>,
    pub preferred_variant: CudaVariant,
    pub variants: Seq<CudaVariant>,
    pub torchvision_minor: Option<u16>,
    pub torchaudio_series: Option<Seq<char>>,
}

impl DeepView for ReleaseRule {
    type V = ReleaseRuleView;

    open spec fn deep_view(&self) -> ReleaseRuleView {
        ReleaseRuleView {
            series: self.series@,
            preferred_variant: self.preferred_variant,
            variants: self.variants@,
            torchvision_minor: self.torchvision_minor,
            torchaudio_series: self.torchaudio_series.deep_view(),
        }
    }
}

impl Clone for ReleaseRule {
    fn clone(&self) -> (copy: ReleaseRule)
        ensures
            copy.deep_view() == self.deep_view(),
    {
        let variants = self.variants.clone();
        assert(variants@ =~= self.variants@);
        ReleaseRule {
            series: self.series.clone(),
            preferred_variant: self.preferred_variant,
            variants,
            torchvision_minor: self.torchvision_minor,
            torchaudio_series: clone_optional(&self.torchaudio_series),
        }
    }
}

/// GPU architectures that reviewed wheels were built for.
#[derive(Debug)]
pub struct GpuArchitectureRule {
    /// Release series of the versions.
    pub series: String,
    /// The reviewed versions.
    pub versions: Vec<String>,
    /// The reviewed variants.
    pub variants: Vec<CudaVariant>,
    /// The platform of the wheels.
    pub platform: String,
    /// Compute capabilities with native code.
    pub cubin_capabilities: Vec<String>,
    /// Compute capability of the embedded PTX, if any.
    pub ptx_capability: Option<String>,
}

/// The model of [`GpuArchitectureRule`].
#[verifier::ext_equal]
pub struct GpuArchitectureRuleView {
    pub series: Seq<char>,
    pub versions: Seq<Seq<char>>,
    pub variants: Seq<CudaVariant>,
    pub platform: Seq<char>,
    pub cubin_capabilities: Seq<Seq<char>>,
    pub ptx_capability: Option<Seq<char>>,
}

impl DeepView for GpuArchitectureRule {
    type V = GpuArchitectureRuleView;

    open spec fn deep_view(&self) -> GpuArchitectureRuleView {
        GpuArchitectureRuleView {
            series: self.series@,
            versions: self.versions.deep_view(),
            variants: self.variants@,
            platform: self.platform@,
            cubin_capabilities: self.cubin_capabilities.deep_view(),
            ptx_capability: self.ptx_capability.deep_view(),
        }
    }
}

impl Clone for GpuArchitectureRule {
    fn clone(&self) -> (copy: GpuArchitectureRule)
        ensures
            copy.deep_view() == self.deep_view(),
    {
        let variants = self.variants.clone();
        assert(variants@ =~= self.variants@);
        GpuArchitectureRule {
            series: self.series.clone(),
            versions: clone_texts(&self.versions),
            variants,
            platform: self.platform.clone(),
            cubin_capabilities: clone_texts(&self.cubin_capabilities),
            ptx_capability: clone_optional(&self.ptx_capability),
        }
    }
}

/// Release compatibility data.
#[derive(Debug)]
pub struct ReleaseRules {
    /// Version of the data's layout.
    pub schema_version: u32,
    /// Reviewed release series.
    pub releases: Vec<ReleaseRule>,
    /// Reviewed GPU architecture evidence.
    pub gpu_architectures: Vec<GpuArchitectureRule>,
}

/// The model of [`ReleaseRules`].
#[verifier::ext_equal]
pub struct ReleaseRulesView {
    pub schema_version: u32,
    pub releases: Seq<ReleaseRuleView>,
    pub gpu_architectures: Seq<GpuArchitectureRuleView>,
}

impl DeepView for ReleaseRules {
    type V = ReleaseRulesView;

    open spec fn deep_view(&self) -> ReleaseRulesView {
        ReleaseRulesView {
            schema_version: self.schema_version,
            releases: self.releases.deep_view(),
            gpu_architectures: self.gpu_architectures.deep_view(),
        }
    }
}

impl Clone for ReleaseRules {
    fn clone(&self) -> (copy: ReleaseRules)
        ensures
            copy.deep_view() == self.deep_view(),
    {
        let releases = self.releases.clone();
        assert(releases.deep_view() =~= self.releases.deep_view());
        let gpu_architectures = self.gpu_architectures.clone();
        assert(gpu_architectures.deep_view() =~= self.gpu_architectures.deep_view());
        ReleaseRules {
            schema_version: self.schema_version,
            releases,
            gpu_architectures,
        }
    }
}

/// Compatibility data that passed validation.
#[derive(Debug)]
pub struct RuleSet {
    /// Driver data.
    pub drivers: DriverRules,
    /// Release data.
    pub releases: ReleaseRules,
}

/// The model of [`RuleSet`].
#[verifier::ext_equal]
pub struct RuleSetView {
    pub drivers: DriverRulesView,
    pub releases: ReleaseRulesView,
}

impl DeepView for RuleSet {
    type V = RuleSetView;

    open spec fn deep_view(&self) -> RuleSetView {
        RuleSetView {
            drivers: self.drivers.deep_view(),
            releases: self.releases.deep_view(),
        }
    }
}

impl Clone for RuleSet {
    fn clone(&self) -> (copy: RuleSet)
        ensures
            copy.deep_view() == self.deep_view(),
    {
        RuleSet {
            drivers: self.drivers.clone(),
            releases: self.releases.clone(),
        }
    }
}

/// The release series of a version: its first two dotted parts, without a local label.
pub open spec fn series_of(version: Seq<char>) -> Option<Seq<char>> {
    let parts = split_on(before(version, '+'), '.');
    if parts.len() >= 2 {
        Some(parts[0] + "."@ + parts[1])
    } else {
        None
    }
}

/// The release series of a version.
pub fn release_series(version: &str) -> (series: Option<String>)
    ensures
        series.deep_view() == series_of(version@),
{
    let public = part_before(version, '+');
    let parts = split(public.as_str(), '.');
    let ghost all = parts.deep_view();
    if parts.len() >= 2 {
        assert(all[0] == parts@[0]@ && all[1] == parts@[1]@);
        Some(concat3(parts[0].as_str(), ".", parts[1].as_str()))
    } else {
        None
    }
}

// ---------------------------------------------------------------------------
// Validation

/// Whether no two versions are equal under PEP 440.
pub open spec fn versions_distinct(versions: Seq<Seq<char>>) -> bool {
    forall|i: int, j: int| #![trigger versions[i], versions[j]]
        0 <= i < j < versions.len() ==> pep440_order(versions[i], versions[j]) != Some(Order::Equal)
}

/// Whether `left` follows `right` under PEP 440.
pub open spec fn pep440_after() -> spec_fn(Seq<char>, Seq<char>) -> bool {
    |left: Seq<char>, right: Seq<char>| pep440_order(left, right) == Some(Order::Greater)
}

/// Whether a release lists each variant once, and its preferred one among them.
pub open spec fn release_valid(release: ReleaseRuleView) -> bool {
    release.variants.no_duplicates() && release.variants.contains(release.preferred_variant)
}

/// The complaint about the first release that is not valid.
pub open spec fn releases_error(releases: Seq<ReleaseRuleView>) -> Option<Seq<char>>
    decreases releases.len(),
{
    if releases.len() == 0 {
        None
    } else {
        match releases_error(releases.drop_last()) {
            Some(message) => Some(message),
            None => if release_valid(releases.last()) {
                None
            } else {
                Some(
                    "release "@ + releases.last().series
                        + " has duplicate variants or an invalid preferred variant"@,
                )
            },
        }
    }
}

/// A complaint about an architecture rule.
pub open spec fn rule_message(series: Seq<char>, complaint: Seq<char>) -> Seq<char> {
    "architecture rule "@ + series + complaint
}

/// Whether two rules have the same key.
pub open spec fn same_key(left: GpuArchitectureRuleView, right: GpuArchitectureRuleView) -> bool {
    left.series == right.series && left.platform == right.platform && left.versions
        == right.versions && left.variants == right.variants
}

/// Whether an earlier rule has the key of `rule`.
pub open spec fn key_taken(
    earlier: Seq<GpuArchitectureRuleView>,
    rule: GpuArchitectureRuleView,
) -> bool {
    exists|i: int| 0 <= i < earlier.len() && same_key(#[trigger] earlier[i], rule)
}

/// The first text of `versions` that is no version.
pub open spec fn first_invalid(versions: Seq<Seq<char>>) -> Option<Seq<char>>
    decreases versions.len(),
{
    if versions.len() == 0 {
        None
    } else {
        match first_invalid(versions.drop_last()) {
            Some(version) => Some(version),
            None => if is_pep440(versions.last()) {
                None
            } else {
                Some(versions.last())
            },
        }
    }
}

/// Whether `versions` holds one that equals `version` under PEP 440.
pub open spec fn holds_version(versions: Seq<Seq<char>>, version: Seq<char>) -> bool {
    exists|i: int|
        0 <= i < versions.len() && pep440_order(#[trigger] versions[i], version) == Some(
            Order::Equal,
        )
}

/// Whether a rule gives evidence for a version and a variant.
pub open spec fn rule_covers(
    rule: GpuArchitectureRuleView,
    version: Seq<char>,
    variant: CudaVariant,
) -> bool {
    rule.platform == "linux_x86_64"@ && holds_version(rule.versions, version)
        && rule.variants.contains(variant)
}

/// Whether the variant at `at` is already taken for `version`, by an earlier rule or by an
/// earlier place in the same rule.
pub open spec fn clashes(
    earlier: Seq<GpuArchitectureRuleView>,
    version: Seq<char>,
    variants: Seq<CudaVariant>,
    at: int,
) -> bool {
    variants.take(at).contains(variants[at]) || exists|i: int|
        0 <= i < earlier.len() && rule_covers(#[trigger] earlier[i], version, variants[at])
}

/// The first of the leading `upto` variants that clashes for `version`.
pub open spec fn first_clash(
    earlier: Seq<GpuArchitectureRuleView>,
    version: Seq<char>,
    variants: Seq<CudaVariant>,
    upto: nat,
) -> Option<CudaVariant>
    decreases upto,
{
    if upto == 0 {
        None
    } else {
        match first_clash(earlier, version, variants, (upto - 1) as nat) {
            Some(variant) => Some(variant),
            None => if clashes(earlier, version, variants, upto - 1) {
                Some(variants[upto - 1])
            } else {
                None
            },
        }
    }
}

/// The complaint about the first version and variant for which the rules overlap.
pub open spec fn overlap_error(
    earlier: Seq<GpuArchitectureRuleView>,
    versions: Seq<Seq<char>>,
    variants: Seq<CudaVariant>,
) -> Option<Seq<char>>
    decreases versions.len(),
{
    if versions.len() == 0 {
        None
    } else {
        match overlap_error(earlier, versions.drop_last(), variants) {
            Some(message) => Some(message),
            None => match first_clash(earlier, versions.last(), variants, variants.len()) {
                Some(variant) => Some(
                    "architecture rules overlap for PyTorch "@ + pep440_text(versions.last())->0
                        + " "@ + variant_text(variant),
                ),
                None => None,
            },
        }
    }
}

/// The capabilities that `texts` write, or the message about the first that writes none.
pub open spec fn capabilities(texts: Seq<Seq<char>>) -> Result<Seq<ComputeCapability>, Seq<char>>
    decreases texts.len(),
{
    if texts.len() == 0 {
        Ok(Seq::empty())
    } else {
        match capabilities(texts.drop_last()) {
            Err(message) => Err(message),
            Ok(known) => match parsed_capability(texts.last()) {
                Err(error) => Err(version_error_text(error)),
                Ok(capability) => Ok(known.push(capability)),
            },
        }
    }
}

/// What is wrong with the capabilities of a rule.
pub open spec fn capability_error(rule: GpuArchitectureRuleView) -> Option<Seq<char>> {
    match capabilities(rule.cubin_capabilities) {
        Err(message) => Some(message),
        Ok(cubins) => if cubins.len() == 0 || !cubins.no_duplicates() {
            Some(rule_message(rule.series, " has empty or duplicate cubin capabilities"@))
        } else {
            match rule.ptx_capability {
                None => None,
                Some(text) => match parsed_capability(text) {
                    Err(error) => Some(version_error_text(error)),
                    Ok(ptx) => if cubins.contains(ptx) {
                        None
                    } else {
                        Some(
                            rule_message(
                                rule.series,
                                " has PTX without a matching cubin capability"@,
                            ),
                        )
                    },
                },
            }
        },
    }
}

/// What is wrong with the versions and variants of a rule.
pub open spec fn version_error(
    earlier: Seq<GpuArchitectureRuleView>,
    rule: GpuArchitectureRuleView,
) -> Option<Seq<char>> {
    match first_invalid(rule.versions) {
        Some(version) => Some(
            rule_message(rule.series, " has invalid version "@) + version,
        ),
        None => if !versions_distinct(rule.versions) || exists|i: int|
            0 <= i < rule.versions.len() && series_of(#[trigger] rule.versions[i]) != Some(
                rule.series,
            ) {
            Some(
                rule_message(
                    rule.series,
                    " has duplicate versions or a version outside the series"@,
                ),
            )
        } else if exists|i: int|
            0 <= i < rule.variants.len() && #[trigger] rule.variants[i] is Cpu {
            Some(rule_message(rule.series, " references a non-CUDA variant"@))
        } else {
            overlap_error(earlier, sort_by(rule.versions, pep440_after()), rule.variants)
        },
    }
}

/// What is wrong with a rule that follows `earlier` ones.
pub open spec fn rule_error(
    earlier: Seq<GpuArchitectureRuleView>,
    rule: GpuArchitectureRuleView,
) -> Option<Seq<char>> {
    if rule.platform != "linux_x86_64"@ || rule.versions.len() == 0 || rule.variants.len() == 0
        || key_taken(earlier, rule) {
        Some(
            rule_message(
                rule.series,
                " has an unsupported platform, empty versions/variants, or duplicate key"@,
            ),
        )
    } else {
        match version_error(earlier, rule) {
            Some(message) => Some(message),
            None => capability_error(rule),
        }
    }
}

/// The complaint about the first architecture rule that is not valid.
pub open spec fn architectures_error(rules: Seq<GpuArchitectureRuleView>) -> Option<Seq<char>>
    decreases rules.len(),
{
    if rules.len() == 0 {
        None
    } else {
        match architectures_error(rules.drop_last()) {
            Some(message) => Some(message),
            None => rule_error(rules.drop_last(), rules.last()),
        }
    }
}

/// What is wrong with the compatibility data, if anything.
pub open spec fn rules_error(drivers: DriverRulesView, releases: ReleaseRulesView) -> Option<
    Seq<char>,
> {
    if drivers.schema_version != 1 || releases.schema_version != 3 {
        Some("unsupported embedded schema version"@)
    } else if !drivers.families.map_values(|rule: DriverFamilyRuleView| rule.cuda_major).no_duplicates()
        || !drivers.variants.map_values(|rule: DriverVariantRuleView| rule.variant).no_duplicates() {
        Some("driver rules contain duplicate families or variants"@)
    } else if !releases.releases.map_values(|rule: ReleaseRuleView| rule.series).no_duplicates() {
        Some("release rules contain duplicate series"@)
    } else {
        match releases_error(releases.releases) {
            Some(message) => Some(message),
            None => architectures_error(releases.gpu_architectures),
        }
    }
}

fn families_distinct(families: &Vec<DriverFamilyRule>) -> (answer: bool)
    ensures
        answer == families.deep_view().map_values(
            |rule: DriverFamilyRuleView| rule.cuda_major,
        ).no_duplicates(),
{
    let ghost keys = families.deep_view().map_values(|rule: DriverFamilyRuleView| rule.cuda_major);
    let mut i: usize = 0;
    while i < families.len()
        invariant
            keys == families.deep_view().map_values(|rule: DriverFamilyRuleView| rule.cuda_major),
            i <= families@.len(),
            forall|a: int, b: int| #![trigger keys[a], keys[b]]
                0 <= a < b < families@.len() && a < i ==> keys[a] != keys[b],
        decreases families@.len() - i,
    {
        let mut j: usize = i + 1;
        while j < families.len()
            invariant
                keys == families.deep_view().map_values(
                    |rule: DriverFamilyRuleView| rule.cuda_major,
                ),
                i < j <= families@.len(),
                forall|b: int| i < b < j ==> keys[i as int] != #[trigger] keys[b],
            decreases families@.len() - j,
        {
            assert(keys[i as int] == families@[i as int].cuda_major);
            assert(keys[j as int] == families@[j as int].cuda_major);
            if families[i].cuda_major == families[j].cuda_major {
                return false;
            }
            j = j + 1;
        }
        i = i + 1;
    }
    assert(keys.no_duplicates());
    true
}

fn driver_variants_distinct(rules: &Vec<DriverVariantRule>) -> (answer: bool)
    ensures
        answer == rules.deep_view().map_values(
            |rule: DriverVariantRuleView| rule.variant,
        ).no_duplicates(),
{
    let mut variants: Vec<CudaVariant> = Vec::new();
    let ghost keys = rules.deep_view().map_values(|rule: DriverVariantRuleView| rule.variant);
    let mut i: usize = 0;
    while i < rules.len()
        invariant
            keys == rules.deep_view().map_values(|rule: DriverVariantRuleView| rule.variant),
            i <= rules@.len(),
            variants@ == keys.take(i as int),
        decreases rules@.len() - i,
    {
        variants.push(rules[i].variant);
        assert(keys[i as int] == rules@[i as int].variant);
        assert(variants@ =~= keys.take(i + 1));
        i = i + 1;
    }
    assert(keys.take(i as int) =~= keys);
    variants_distinct(&variants)
}

/// Whether `variants` holds `variant`.
pub fn contains_variant(variants: &Vec<CudaVariant>, variant: CudaVariant) -> (found: bool)
    ensures
        found == variants@.contains(variant),
{
    let mut index: usize = 0;
    while index < variants.len()
        invariant
            index <= variants@.len(),
            forall|k: int| 0 <= k < index ==> #[trigger] variants@[k] != variant,
        decreases variants@.len() - index,
    {
        if variants[index] == variant {
            assert(variants@[index as int] == variant);
            return true;
        }
        index = index + 1;
    }
    false
}

/// Whether no variant stands twice.
pub fn variants_distinct(variants: &Vec<CudaVariant>) -> (answer: bool)
    ensures
        answer == variants@.no_duplicates(),
{
    let mut i: usize = 0;
    while i < variants.len()
        invariant
            i <= variants@.len(),
            forall|a: int, b: int| #![trigger variants@[a], variants@[b]]
                0 <= a < b < i ==> variants@[a] != variants@[b],
        decreases variants@.len() - i,
    {
        let mut j: usize = 0;
        while j < i
            invariant
                j <= i < variants@.len(),
                forall|a: int| 0 <= a < j ==> #[trigger] variants@[a] != variants@[i as int],
            decreases i - j,
        {
            if variants[j] == variants[i] {
                assert(variants@[j as int] == variants@[i as int]);
                return false;
            }
            j = j + 1;
        }
        i = i + 1;
    }
    true
}

/// Whether no text stands twice.
pub fn texts_distinct(texts: &Vec<String>) -> (answer: bool)
    ensures
        answer == texts.deep_view().no_duplicates(),
{
    let ghost all = texts.deep_view();
    let mut i: usize = 0;
    while i < texts.len()
        invariant
            all == texts.deep_view(),
            i <= texts@.len(),
            forall|a: int, b: int| #![trigger all[a], all[b]] 0 <= a < b < i ==> all[a] != all[b],
        decreases texts@.len() - i,
    {
        let mut j: usize = 0;
        while j < i
            invariant
                all == texts.deep_view(),
                j <= i < texts@.len(),
                forall|a: int| 0 <= a < j ==> #[trigger] all[a] != all[i as int],
            decreases i - j,
        {
            if same(texts[j].as_str(), texts[i].as_str()) {
                assert(all[j as int] == all[i as int]);
                return false;
            }
            j = j + 1;
        }
        i = i + 1;
    }
    true
}

fn series_distinct(releases: &Vec<ReleaseRule>) -> (answer: bool)
    ensures
        answer == releases.deep_view().map_values(
            |rule: ReleaseRuleView| rule.series,
        ).no_duplicates(),
{
    let mut names: Vec<String> = Vec::new();
    let ghost keys = releases.deep_view().map_values(|rule: ReleaseRuleView| rule.series);
    let mut i: usize = 0;
    while i < releases.len()
        invariant
            keys == releases.deep_view().map_values(|rule: ReleaseRuleView| rule.series),
            i <= releases@.len(),
            names.deep_view() == keys.take(i as int),
        decreases releases@.len() - i,
    {
        push_item(&mut names, releases[i].series.clone());
        assert(keys[i as int] == releases@[i as int].series@);
        assert(names.deep_view() =~= keys.take(i + 1));
        i = i + 1;
    }
    assert(keys.take(i as int) =~= keys);
    texts_distinct(&names)
}

fn check_releases(releases: &Vec<ReleaseRule>) -> (message: Option<String>)
    ensures
        message.deep_view() == releases_error(releases.deep_view()),
{
    let ghost all = releases.deep_view();
    let mut index: usize = 0;
    while index < releases.len()
        invariant
            all == releases.deep_view(),
            index <= releases@.len(),
            releases_error(all.take(index as int)) is None,
        decreases releases@.len() - index,
    {
        let release = &releases[index];
        assert(all.take(index + 1).drop_last() =~= all.take(index as int));
        assert(all.take(index + 1).last() == release.deep_view());
        if !variants_distinct(&release.variants) || !contains_variant(
            &release.variants,
            release.preferred_variant,
        ) {
            proof {
                release_error_decides(all, index + 1);
            }
            return Some(
                concat3(
                    "release ",
                    release.series.as_str(),
                    " has duplicate variants or an invalid preferred variant",
                ),
            );
        }
        index = index + 1;
    }
    assert(all.take(index as int) =~= all);
    None
}

proof fn release_error_decides(releases: Seq<ReleaseRuleView>, upto: int)
    requires
        0 < upto <= releases.len(),
        releases_error(releases.take(upto)) is Some,
    ensures
        releases_error(releases) == releases_error(releases.take(upto)),
    decreases releases.len() - upto,
{
    if upto < releases.len() {
        assert(releases.take(upto + 1).drop_last() =~= releases.take(upto));
        release_error_decides(releases, upto + 1);
    } else {
        assert(releases.take(upto) =~= releases);
    }
}

proof fn architecture_error_decides(rules: Seq<GpuArchitectureRuleView>, upto: int)
    requires
        0 < upto <= rules.len(),
        architectures_error(rules.take(upto)) is Some,
    ensures
        architectures_error(rules) == architectures_error(rules.take(upto)),
    decreases rules.len() - upto,
{
    if upto < rules.len() {
        assert(rules.take(upto + 1).drop_last() =~= rules.take(upto));
        architecture_error_decides(rules, upto + 1);
    } else {
        assert(rules.take(upto) =~= rules);
    }
}

proof fn invalid_version_decides(versions: Seq<Seq<char>>, upto: int)
    requires
        0 < upto <= versions.len(),
        first_invalid(versions.take(upto)) is Some,
    ensures
        first_invalid(versions) == first_invalid(versions.take(upto)),
    decreases versions.len() - upto,
{
    if upto < versions.len() {
        assert(versions.take(upto + 1).drop_last() =~= versions.take(upto));
        invalid_version_decides(versions, upto + 1);
    } else {
        assert(versions.take(upto) =~= versions);
    }
}

proof fn valid_when_none_invalid(versions: Seq<Seq<char>>)
    requires
        first_invalid(versions) is None,
    ensures
        forall|i: int| 0 <= i < versions.len() ==> is_pep440(#[trigger] versions[i]),
    decreases versions.len(),
{
    if versions.len() > 0 {
        valid_when_none_invalid(versions.drop_last());
        assert forall|i: int| 0 <= i < versions.len() implies is_pep440(#[trigger] versions[i]) by {
            if i < versions.len() - 1 {
                assert(versions.drop_last()[i] == versions[i]);
            }
        }
    }
}

fn find_invalid(versions: &Vec<String>) -> (invalid: Option<String>)
    ensures
        invalid.deep_view() == first_invalid(versions.deep_view()),
{
    let ghost all = versions.deep_view();
    let mut index: usize = 0;
    while index < versions.len()
        invariant
            all == versions.deep_view(),
            index <= versions@.len(),
            first_invalid(all.take(index as int)) is None,
        decreases versions@.len() - index,
    {
        assert(all.take(index + 1).drop_last() =~= all.take(index as int));
        assert(all.take(index + 1).last() == versions@[index as int]@);
        if normalize_version(versions[index].as_str()).is_none() {
            proof {
                invalid_version_decides(all, index + 1);
            }
            return Some(versions[index].clone());
        }
        index = index + 1;
    }
    assert(all.take(index as int) =~= all);
    None
}

fn equal_versions(left: &str, right: &str) -> (answer: bool)
    ensures
        answer == (pep440_order(left@, right@) == Some(Order::Equal)),
{
    match order_versions(left, right) {
        Some(Order::Equal) => true,
        _ => false,
    }
}

fn are_versions_distinct(versions: &Vec<String>) -> (answer: bool)
    ensures
        answer == versions_distinct(versions.deep_view()),
{
    let ghost all = versions.deep_view();
    let mut j: usize = 0;
    while j < versions.len()
        invariant
            all == versions.deep_view(),
            j <= versions@.len(),
            forall|a: int, b: int| #![trigger all[a], all[b]]
                0 <= a < b < j ==> pep440_order(all[a], all[b]) != Some(Order::Equal),
        decreases versions@.len() - j,
    {
        let mut i: usize = 0;
        while i < j
            invariant
                all == versions.deep_view(),
                i <= j < versions@.len(),
                forall|a: int|
                    0 <= a < i ==> pep440_order(#[trigger] all[a], all[j as int]) != Some(
                        Order::Equal,
                    ),
            decreases j - i,
        {
            if equal_versions(versions[i].as_str(), versions[j].as_str()) {
                assert(pep440_order(all[i as int], all[j as int]) == Some(Order::Equal));
                return false;
            }
            i = i + 1;
        }
        j = j + 1;
    }
    true
}

fn outside_series(versions: &Vec<String>, series: &str) -> (answer: bool)
    ensures
        answer == exists|i: int|
            0 <= i < versions.deep_view().len() && series_of(#[trigger] versions.deep_view()[i])
                != Some(series@),
{
    let ghost all = versions.deep_view();
    let mut index: usize = 0;
    while index < versions.len()
        invariant
            all == versions.deep_view(),
            index <= versions@.len(),
            forall|i: int| 0 <= i < index ==> series_of(#[trigger] all[i]) == Some(series@),
        decreases versions@.len() - index,
    {
        let inside = match release_series(versions[index].as_str()) {
            Some(known) => same(known.as_str(), series),
            None => false,
        };
        if !inside {
            assert(series_of(all[index as int]) != Some(series@));
            return true;
        }
        index = index + 1;
    }
    false
}

fn has_cpu(variants: &Vec<CudaVariant>) -> (answer: bool)
    ensures
        answer == exists|i: int| 0 <= i < variants@.len() && #[trigger] variants@[i] is Cpu,
{
    let mut index: usize = 0;
    while index < variants.len()
        invariant
            index <= variants@.len(),
            forall|i: int| 0 <= i < index ==> !(#[trigger] variants@[i] is Cpu),
        decreases variants@.len() - index,
    {
        if !variants[index].is_cuda() {
            assert(variants@[index as int] is Cpu);
            return true;
        }
        index = index + 1;
    }
    false
}

/// Whether `versions` holds one that equals `version`.
pub fn contains_version(versions: &Vec<String>, version: &str) -> (answer: bool)
    ensures
        answer == holds_version(versions.deep_view(), version@),
{
    let ghost all = versions.deep_view();
    let mut index: usize = 0;
    while index < versions.len()
        invariant
            all == versions.deep_view(),
            index <= versions@.len(),
            forall|i: int|
                0 <= i < index ==> pep440_order(#[trigger] all[i], version@) != Some(Order::Equal),
        decreases versions@.len() - index,
    {
        if equal_versions(versions[index].as_str(), version) {
            assert(pep440_order(all[index as int], version@) == Some(Order::Equal));
            return true;
        }
        index = index + 1;
    }
    false
}

impl GpuArchitectureRule {
    /// Whether the rule gives evidence for a version and a variant.
    pub fn covers(&self, version: &str, variant: CudaVariant) -> (answer: bool)
        ensures
            answer == rule_covers(self.deep_view(), version@, variant),
    {
        same(self.platform.as_str(), "linux_x86_64") && contains_version(&self.versions, version)
            && contains_variant(&self.variants, variant)
    }

    fn has_key_of(&self, other: &GpuArchitectureRule) -> (answer: bool)
        ensures
            answer == same_key(self.deep_view(), other.deep_view()),
    {
        same(self.series.as_str(), other.series.as_str()) && same(
            self.platform.as_str(),
            other.platform.as_str(),
        ) && same_texts(&self.versions, &other.versions) && same_variants(
            &self.variants,
            &other.variants,
        )
    }
}

fn same_variants(left: &Vec<CudaVariant>, right: &Vec<CudaVariant>) -> (equal: bool)
    ensures
        equal == (left@ == right@),
{
    if left.len() != right.len() {
        return false;
    }
    let mut index: usize = 0;
    while index < left.len()
        invariant
            index <= left@.len() == right@.len(),
            forall|k: int| 0 <= k < index ==> #[trigger] left@[k] == right@[k],
        decreases left@.len() - index,
    {
        if left[index] != right[index] {
            assert(left@[index as int] != right@[index as int]);
            return false;
        }
        index = index + 1;
    }
    assert(left@ =~= right@);
    true
}

fn is_key_taken(rules: &Vec<GpuArchitectureRule>, at: usize) -> (answer: bool)
    requires
        at < rules@.len(),
    ensures
        answer == key_taken(
            rules.deep_view().take(at as int),
            rules.deep_view()[at as int],
        ),
{
    let ghost all = rules.deep_view();
    let mut index: usize = 0;
    while index < at
        invariant
            all == rules.deep_view(),
            index <= at < rules@.len(),
            forall|i: int| 0 <= i < index ==> !same_key(#[trigger] all[i], all[at as int]),
        decreases at - index,
    {
        if rules[index].has_key_of(&rules[at]) {
            assert(same_key(all.take(at as int)[index as int], all[at as int]));
            return true;
        }
        index = index + 1;
    }
    false
}

fn does_clash(
    rules: &Vec<GpuArchitectureRule>,
    upto: usize,
    version: &str,
    variants: &Vec<CudaVariant>,
    at: usize,
) -> (answer: bool)
    requires
        upto <= rules@.len(),
        at < variants@.len(),
    ensures
        answer == clashes(rules.deep_view().take(upto as int), version@, variants@, at as int),
{
    let ghost earlier = rules.deep_view().take(upto as int);
    let mut index: usize = 0;
    while index < at
        invariant
            index <= at < variants@.len(),
            forall|i: int| 0 <= i < index ==> #[trigger] variants@[i] != variants@[at as int],
        decreases at - index,
    {
        if variants[index] == variants[at] {
            assert(variants@.take(at as int)[index as int] == variants@[at as int]);
            return true;
        }
        index = index + 1;
    }
    assert(!variants@.take(at as int).contains(variants@[at as int]));
    let mut rule: usize = 0;
    while rule < upto
        invariant
            earlier == rules.deep_view().take(upto as int),
            rule <= upto <= rules@.len(),
            at < variants@.len(),
            forall|i: int|
                0 <= i < rule ==> !rule_covers(#[trigger] earlier[i], version@, variants@[at as int]),
        decreases upto - rule,
    {
        assert(earlier[rule as int] == rules@[rule as int].deep_view());
        if rules[rule].covers(version, variants[at]) {
            return true;
        }
        rule = rule + 1;
    }
    false
}

proof fn clash_decides(
    earlier: Seq<GpuArchitectureRuleView>,
    version: Seq<char>,
    variants: Seq<CudaVariant>,
    low: nat,
    high: nat,
)
    requires
        low <= high,
        first_clash(earlier, version, variants, low) is Some,
    ensures
        first_clash(earlier, version, variants, high) == first_clash(
            earlier,
            version,
            variants,
            low,
        ),
    decreases high,
{
    if low < high {
        clash_decides(earlier, version, variants, low, (high - 1) as nat);
    }
}

fn find_clash(
    rules: &Vec<GpuArchitectureRule>,
    upto: usize,
    version: &str,
    variants: &Vec<CudaVariant>,
) -> (clash: Option<CudaVariant>)
    requires
        upto <= rules@.len(),
    ensures
        clash == first_clash(
            rules.deep_view().take(upto as int),
            version@,
            variants@,
            variants@.len(),
        ),
{
    let ghost earlier = rules.deep_view().take(upto as int);
    let mut at: usize = 0;
    while at < variants.len()
        invariant
            earlier == rules.deep_view().take(upto as int),
            upto <= rules@.len(),
            at <= variants@.len(),
            first_clash(earlier, version@, variants@, at as nat) is None,
        decreases variants@.len() - at,
    {
        if does_clash(rules, upto, version, variants, at) {
            proof {
                clash_decides(earlier, version@, variants@, (at + 1) as nat, variants@.len());
            }
            return Some(variants[at]);
        }
        at = at + 1;
    }
    None
}

proof fn overlap_decides(
    earlier: Seq<GpuArchitectureRuleView>,
    versions: Seq<Seq<char>>,
    variants: Seq<CudaVariant>,
    upto: int,
)
    requires
        0 < upto <= versions.len(),
        overlap_error(earlier, versions.take(upto), variants) is Some,
    ensures
        overlap_error(earlier, versions, variants) == overlap_error(
            earlier,
            versions.take(upto),
            variants,
        ),
    decreases versions.len() - upto,
{
    if upto < versions.len() {
        assert(versions.take(upto + 1).drop_last() =~= versions.take(upto));
        overlap_decides(earlier, versions, variants, upto + 1);
    } else {
        assert(versions.take(upto) =~= versions);
    }
}

fn find_overlap(
    rules: &Vec<GpuArchitectureRule>,
    upto: usize,
    versions: &Vec<String>,
    variants: &Vec<CudaVariant>,
) -> (message: Option<String>)
    requires
        upto <= rules@.len(),
        forall|i: int| 0 <= i < versions.deep_view().len() ==> is_pep440(#[trigger] versions.deep_view()[i]),
    ensures
        message.deep_view() == overlap_error(
            rules.deep_view().take(upto as int),
            versions.deep_view(),
            variants@,
        ),
{
    let ghost earlier = rules.deep_view().take(upto as int);
    let ghost all = versions.deep_view();
    let mut index: usize = 0;
    while index < versions.len()
        invariant
            earlier == rules.deep_view().take(upto as int),
            all == versions.deep_view(),
            upto <= rules@.len(),
            index <= versions@.len(),
            overlap_error(earlier, all.take(index as int), variants@) is None,
            forall|i: int| 0 <= i < all.len() ==> is_pep440(#[trigger] all[i]),
        decreases versions@.len() - index,
    {
        assert(all.take(index + 1).drop_last() =~= all.take(index as int));
        assert(all.take(index + 1).last() == versions@[index as int]@);
        if let Some(variant) = find_clash(rules, upto, versions[index].as_str(), variants) {
            proof {
                overlap_decides(earlier, all, variants@, index + 1);
                assert(is_pep440(all[index as int]));
            }
            let version = match normalize_version(versions[index].as_str()) {
                Some(version) => version,
                None => String::new(),
            };
            return Some(
                concat4(
                    "architecture rules overlap for PyTorch ",
                    version.as_str(),
                    " ",
                    variant.to_string().as_str(),
                ),
            );
        }
        index = index + 1;
    }
    assert(all.take(index as int) =~= all);
    None
}

proof fn capability_decides(texts: Seq<Seq<char>>, upto: int)
    requires
        0 < upto <= texts.len(),
        capabilities(texts.take(upto)) is Err,
    ensures
        capabilities(texts) == capabilities(texts.take(upto)),
    decreases texts.len() - upto,
{
    if upto < texts.len() {
        assert(texts.take(upto + 1).drop_last() =~= texts.take(upto));
        capability_decides(texts, upto + 1);
    } else {
        assert(texts.take(upto) =~= texts);
    }
}

fn parse_capabilities(texts: &Vec<String>) -> (result: Result<Vec<ComputeCapability>, String>)
    ensures
        match result {
            Ok(known) => capabilities(texts.deep_view()) == Ok::<Seq<ComputeCapability>, Seq<char>>(
                known@,
            ),
            Err(message) => capabilities(texts.deep_view()) == Err::<
                Seq<ComputeCapability>,
                Seq<char>,
            >(message@),
        },
{
    let ghost all = texts.deep_view();
    let mut known: Vec<ComputeCapability> = Vec::new();
    let mut index: usize = 0;
    while index < texts.len()
        invariant
            all == texts.deep_view(),
            index <= texts@.len(),
            capabilities(all.take(index as int)) == Ok::<Seq<ComputeCapability>, Seq<char>>(known@),
        decreases texts@.len() - index,
    {
        assert(all.take(index + 1).drop_last() =~= all.take(index as int));
        assert(all.take(index + 1).last() == texts@[index as int]@);
        match ComputeCapability::parse(texts[index].as_str()) {
            Ok(capability) => {
                known.push(capability);
            },
            Err(error) => {
                proof {
                    capability_decides(all, index + 1);
                }
                return Err(error.to_string());
            },
        }
        index = index + 1;
    }
    assert(all.take(index as int) =~= all);
    Ok(known)
}

/// Whether `capabilities` holds `capability`.
pub fn contains_capability(
    capabilities: &Vec<ComputeCapability>,
    capability: ComputeCapability,
) -> (found: bool)
    ensures
        found == capabilities@.contains(capability),
{
    let mut index: usize = 0;
    while index < capabilities.len()
        invariant
            index <= capabilities@.len(),
            forall|k: int| 0 <= k < index ==> #[trigger] capabilities@[k] != capability,
        decreases capabilities@.len() - index,
    {
        if capabilities[index] == capability {
            assert(capabilities@[index as int] == capability);
            return true;
        }
        index = index + 1;
    }
    false
}

fn capabilities_distinct(items: &Vec<ComputeCapability>) -> (answer: bool)
    ensures
        answer == items@.no_duplicates(),
{
    let mut i: usize = 0;
    while i < items.len()
        invariant
            i <= items@.len(),
            forall|a: int, b: int| #![trigger items@[a], items@[b]]
                0 <= a < b < i ==> items@[a] != items@[b],
        decreases items@.len() - i,
    {
        let mut j: usize = 0;
        while j < i
            invariant
                j <= i < items@.len(),
                forall|a: int| 0 <= a < j ==> #[trigger] items@[a] != items@[i as int],
            decreases i - j,
        {
            if items[j] == items[i] {
                assert(items@[j as int] == items@[i as int]);
                return false;
            }
            j = j + 1;
        }
        i = i + 1;
    }
    true
}

fn check_capabilities(rule: &GpuArchitectureRule) -> (message: Option<String>)
    ensures
        message.deep_view() == capability_error(rule.deep_view()),
{
    let cubins = match parse_capabilities(&rule.cubin_capabilities) {
        Ok(cubins) => cubins,
        Err(message) => {
            return Some(message);
        },
    };
    if cubins.len() == 0 || !capabilities_distinct(&cubins) {
        return Some(
            concat3(
                "architecture rule ",
                rule.series.as_str(),
                " has empty or duplicate cubin capabilities",
            ),
        );
    }
    if let Some(text) = &rule.ptx_capability {
        match ComputeCapability::parse(text.as_str()) {
            Err(error) => {
                return Some(error.to_string());
            },
            Ok(ptx) => {
                if !contains_capability(&cubins, ptx) {
                    return Some(
                        concat3(
                            "architecture rule ",
                            rule.series.as_str(),
                            " has PTX without a matching cubin capability",
                        ),
                    );
                }
            },
        }
    }
    None
}

proof fn sorted_versions_are_valid(versions: Seq<Seq<char>>)
    requires
        forall|i: int| 0 <= i < versions.len() ==> is_pep440(#[trigger] versions[i]),
    ensures
        forall|i: int|
            0 <= i < sort_by(versions, pep440_after()).len() ==> is_pep440(
                #[trigger] sort_by(versions, pep440_after())[i],
            ),
{
    broadcast use vstd::seq_lib::group_to_multiset_ensures;

    let sorted = sort_by(versions, pep440_after());
    sort_keeps_items(versions, pep440_after());
    assert forall|i: int| 0 <= i < sorted.len() implies is_pep440(#[trigger] sorted[i]) by {
        assert(sorted.contains(sorted[i]));
        assert(sorted.to_multiset().count(sorted[i]) > 0);
        assert(versions.to_multiset().count(sorted[i]) > 0);
        assert(versions.contains(sorted[i]));
    }
}

/// Sorts versions in the order of PEP 440.
pub fn sort_versions(versions: &mut Vec<String>)
    ensures
        final(versions).deep_view() == sort_by(old(versions).deep_view(), pep440_after()),
{
    let after = |a: &String, b: &String| -> (follows: bool)
        ensures
            follows == (pep440_order(a@, b@) == Some(Order::Greater)),
        {
            match order_versions(a.as_str(), b.as_str()) {
                Some(Order::Greater) => true,
                _ => false,
            }
        };
    sort_values(versions, after, Ghost(pep440_after()));
}

fn check_versions(rules: &Vec<GpuArchitectureRule>, at: usize) -> (message: Option<String>)
    requires
        at < rules@.len(),
    ensures
        message.deep_view() == version_error(
            rules.deep_view().take(at as int),
            rules.deep_view()[at as int],
        ),
{
    let rule = &rules[at];
    let series = rule.series.as_str();
    if let Some(version) = find_invalid(&rule.versions) {
        return Some(
            concat4("architecture rule ", series, " has invalid version ", version.as_str()),
        );
    }
    if !are_versions_distinct(&rule.versions) || outside_series(&rule.versions, series) {
        return Some(
            concat3(
                "architecture rule ",
                series,
                " has duplicate versions or a version outside the series",
            ),
        );
    }
    if has_cpu(&rule.variants) {
        return Some(concat3("architecture rule ", series, " references a non-CUDA variant"));
    }
    let mut versions = clone_texts(&rule.versions);
    sort_versions(&mut versions);
    proof {
        valid_when_none_invalid(rule.versions.deep_view());
        sorted_versions_are_valid(rule.versions.deep_view());
    }
    find_overlap(rules, at, &versions, &rule.variants)
}

fn check_architectures(rules: &Vec<GpuArchitectureRule>) -> (message: Option<String>)
    ensures
        message.deep_view() == architectures_error(rules.deep_view()),
{
    let ghost all = rules.deep_view();
    let mut index: usize = 0;
    while index < rules.len()
        invariant
            all == rules.deep_view(),
            index <= rules@.len(),
            architectures_error(all.take(index as int)) is None,
        decreases rules@.len() - index,
    {
        let rule = &rules[index];
        assert(all.take(index + 1).drop_last() =~= all.take(index as int));
        assert(all.take(index + 1).last() == rule.deep_view());
        if !same(rule.platform.as_str(), "linux_x86_64") || rule.versions.len() == 0
            || rule.variants.len() == 0 || is_key_taken(rules, index) {
            proof {
                architecture_error_decides(all, index + 1);
            }
            return Some(
                concat3(
                    "architecture rule ",
                    rule.series.as_str(),
                    " has an unsupported platform, empty versions/variants, or duplicate key",
                ),
            );
        }
        if let Some(message) = check_versions(rules, index) {
            proof {
                architecture_error_decides(all, index + 1);
            }
            return Some(message);
        }
        if let Some(message) = check_capabilities(rule) {
            proof {
                architecture_error_decides(all, index + 1);
            }
            return Some(message);
        }
        index = index + 1;
    }
    assert(all.take(index as int) =~= all);
    None
}

// ---------------------------------------------------------------------------
// Queries

/// The driver minimum of the first family rule for `major`.
pub open spec fn family_minimum(rules: Seq<DriverFamilyRuleView>, major: u16) -> Option<
    NumericVersionView,
>
    decreases rules.len(),
{
    if rules.len() == 0 {
        None
    } else if rules[0].cuda_major == major {
        Some(rules[0].linux_min_driver)
    } else {
        family_minimum(rules.skip(1), major)
    }
}

/// The driver minimum of the first variant rule for `variant`.
pub open spec fn variant_minimum(rules: Seq<DriverVariantRuleView>, variant: CudaVariant) -> Option<
    NumericVersionView,
>
    decreases rules.len(),
{
    if rules.len() == 0 {
        None
    } else if rules[0].variant == variant {
        Some(rules[0].linux_min_driver)
    } else {
        variant_minimum(rules.skip(1), variant)
    }
}

/// The first rule of a release series.
pub open spec fn release_of_series(rules: Seq<ReleaseRuleView>, series: Seq<char>) -> Option<
    ReleaseRuleView,
>
    decreases rules.len(),
{
    if rules.len() == 0 {
        None
    } else if rules[0].series == series {
        Some(rules[0])
    } else {
        release_of_series(rules.skip(1), series)
    }
}

/// The rule of the release that `version` belongs to.
pub open spec fn release_for(rules: RuleSetView, version: Seq<char>) -> Option<ReleaseRuleView> {
    match series_of(version) {
        Some(series) => release_of_series(rules.releases.releases, series),
        None => None,
    }
}

/// The place of `variant` among `variants` other than `preferred`.
pub open spec fn place_among(
    variants: Seq<CudaVariant>,
    preferred: CudaVariant,
    variant: CudaVariant,
) -> Option<nat>
    decreases variants.len(),
{
    if variants.len() == 0 {
        None
    } else if variants[0] == variant {
        Some(0)
    } else {
        match place_among(variants.skip(1), preferred, variant) {
            None => None,
            Some(place) => Some(
                if variants[0] == preferred {
                    place
                } else {
                    place + 1
                },
            ),
        }
    }
}

/// The rank of a variant within its release: zero for the preferred one, then the place
/// among the others, counted from one.
pub open spec fn preference(rules: RuleSetView, version: Seq<char>, variant: CudaVariant) -> Option<
    u16,
> {
    match release_for(rules, version) {
        None => None,
        Some(rule) => if rule.preferred_variant == variant {
            Some(0)
        } else {
            match place_among(rule.variants, rule.preferred_variant, variant) {
                Some(place) => if place + 1 <= u16::MAX {
                    Some((place + 1) as u16)
                } else {
                    None
                },
                None => None,
            }
        },
    }
}

/// The first rule that covers a version and a variant.
pub open spec fn covering_rule(
    rules: Seq<GpuArchitectureRuleView>,
    version: Seq<char>,
    variant: CudaVariant,
) -> Option<GpuArchitectureRuleView>
    decreases rules.len(),
{
    if rules.len() == 0 {
        None
    } else if rule_covers(rules[0], version, variant) {
        Some(rules[0])
    } else {
        covering_rule(rules.skip(1), version, variant)
    }
}

/// The model of an optional reference.
pub open spec fn seen<T: DeepView>(value: Option<&T>) -> Option<T::V> {
    match value {
        Some(inner) => Some(inner.deep_view()),
        None => None,
    }
}

fn place_of(variants: &Vec<CudaVariant>, preferred: CudaVariant, variant: CudaVariant) -> (place:
    Option<usize>)
    ensures
        (match place {
            Some(number) => Some(number as nat),
            None => None,
        }) == place_among(variants@, preferred, variant),
{
    let mut index: usize = 0;
    let mut place: usize = 0;
    assert(variants@.skip(0) =~= variants@);
    while index < variants.len()
        invariant
            index <= variants@.len(),
            place <= index,
            place_among(variants@, preferred, variant) == (match place_among(
                variants@.skip(index as int),
                preferred,
                variant,
            ) {
                Some(rest) => Some((place + rest) as nat),
                None => None,
            }),
        decreases variants@.len() - index,
    {
        assert(variants@.skip(index as int)[0] == variants@[index as int]);
        assert(variants@.skip(index as int).skip(1) =~= variants@.skip(index + 1));
        if variants[index] == variant {
            return Some(place);
        }
        if variants[index] != preferred {
            place = place + 1;
        }
        index = index + 1;
    }
    None
}

impl RuleSet {
    /// Validates compatibility data.
    pub fn load(drivers: DriverRules, releases: ReleaseRules) -> (result: Result<
        RuleSet,
        ResolverError,
    >)
        ensures
            result matches Ok(rules) ==> rules.deep_view() == (RuleSetView {
                drivers: drivers.deep_view(),
                releases: releases.deep_view(),
            }) && rules_error(drivers.deep_view(), releases.deep_view()) is None,
            result matches Err(error) ==> rules_error(
                drivers.deep_view(),
                releases.deep_view(),
            ) matches Some(message) && error.deep_view() == ResolverErrorView::InvalidData(message),
    {
        if drivers.schema_version != 1 || releases.schema_version != 3 {
            return Err(
                ResolverError::InvalidData("unsupported embedded schema version".to_owned()),
            );
        }
        if !families_distinct(&drivers.families) || !driver_variants_distinct(&drivers.variants) {
            return Err(
                ResolverError::InvalidData(
                    "driver rules contain duplicate families or variants".to_owned(),
                ),
            );
        }
        if !series_distinct(&releases.releases) {
            return Err(
                ResolverError::InvalidData("release rules contain duplicate series".to_owned()),
            );
        }
        if let Some(message) = check_releases(&releases.releases) {
            return Err(ResolverError::InvalidData(message));
        }
        if let Some(message) = check_architectures(&releases.gpu_architectures) {
            return Err(ResolverError::InvalidData(message));
        }
        Ok(RuleSet { drivers, releases })
    }

    /// The driver minimum of a CUDA major version.
    pub fn family_driver_minimum(&self, major: u16) -> (minimum: Option<&NumericVersion>)
        ensures
            seen(minimum) == family_minimum(self.deep_view().drivers.families, major),
    {
        let rules = &self.drivers.families;
        let ghost all = rules.deep_view();
        let mut index: usize = 0;
        assert(all.skip(0) =~= all);
        while index < rules.len()
            invariant
                all == self.deep_view().drivers.families,
                all == rules.deep_view(),
                index <= rules@.len(),
                family_minimum(all, major) == family_minimum(all.skip(index as int), major),
            decreases rules@.len() - index,
        {
            assert(all.skip(index as int)[0] == rules@[index as int].deep_view());
            assert(all.skip(index as int).skip(1) =~= all.skip(index + 1));
            if rules[index].cuda_major == major {
                return Some(&rules[index].linux_min_driver);
            }
            index = index + 1;
        }
        None
    }

    /// The normal driver minimum of a variant.
    pub fn variant_driver_minimum(&self, variant: &CudaVariant) -> (minimum: Option<
        &NumericVersion,
    >)
        ensures
            seen(minimum) == variant_minimum(self.deep_view().drivers.variants, *variant),
    {
        let rules = &self.drivers.variants;
        let ghost all = rules.deep_view();
        let mut index: usize = 0;
        assert(all.skip(0) =~= all);
        while index < rules.len()
            invariant
                all == self.deep_view().drivers.variants,
                all == rules.deep_view(),
                index <= rules@.len(),
                variant_minimum(all, *variant) == variant_minimum(all.skip(index as int), *variant),
            decreases rules@.len() - index,
        {
            assert(all.skip(index as int)[0] == rules@[index as int].deep_view());
            assert(all.skip(index as int).skip(1) =~= all.skip(index + 1));
            if rules[index].variant == *variant {
                return Some(&rules[index].linux_min_driver);
            }
            index = index + 1;
        }
        None
    }

    /// The rule of the release that `version` belongs to.
    pub fn release_rule(&self, version: &str) -> (rule: Option<&ReleaseRule>)
        ensures
            seen(rule) == release_for(self.deep_view(), version@),
    {
        let series = match release_series(version) {
            Some(series) => series,
            None => {
                return None;
            },
        };
        let rules = &self.releases.releases;
        let ghost all = rules.deep_view();
        let mut index: usize = 0;
        assert(all.skip(0) =~= all);
        while index < rules.len()
            invariant
                all == rules.deep_view(),
                rules == &self.releases.releases,
                index <= rules@.len(),
                release_for(self.deep_view(), version@) == release_of_series(all, series@),
                release_of_series(all, series@) == release_of_series(
                    all.skip(index as int),
                    series@,
                ),
            decreases rules@.len() - index,
        {
            assert(all.skip(index as int)[0] == rules@[index as int].deep_view());
            assert(all.skip(index as int).skip(1) =~= all.skip(index + 1));
            if same(rules[index].series.as_str(), series.as_str()) {
                return Some(&rules[index]);
            }
            index = index + 1;
        }
        None
    }

    /// The rank of a variant within its release.
    pub fn official_preference(&self, version: &str, variant: &CudaVariant) -> (rank: Option<u16>)
        ensures
            rank == preference(self.deep_view(), version@, *variant),
    {
        let rule = match self.release_rule(version) {
            Some(rule) => rule,
            None => {
                return None;
            },
        };
        if rule.preferred_variant == *variant {
            return Some(0);
        }
        match place_of(&rule.variants, rule.preferred_variant, *variant) {
            Some(place) => if place < 65535 {
                Some((place + 1) as u16)
            } else {
                None
            },
            None => None,
        }
    }

    /// The rule with evidence for a version and a variant.
    pub fn architecture_rule(&self, version: &str, variant: &CudaVariant) -> (rule: Option<
        &GpuArchitectureRule,
    >)
        ensures
            seen(rule) == covering_rule(
                self.deep_view().releases.gpu_architectures,
                version@,
                *variant,
            ),
    {
        let rules = &self.releases.gpu_architectures;
        let ghost all = rules.deep_view();
        let mut index: usize = 0;
        assert(all.skip(0) =~= all);
        while index < rules.len()
            invariant
                all == self.deep_view().releases.gpu_architectures,
                all == rules.deep_view(),
                index <= rules@.len(),
                covering_rule(all, version@, *variant) == covering_rule(
                    all.skip(index as int),
                    version@,
                    *variant,
                ),
            decreases rules@.len() - index,
        {
            assert(all.skip(index as int)[0] == rules@[index as int].deep_view());
            assert(all.skip(index as int).skip(1) =~= all.skip(index + 1));
            if rules[index].covers(version, *variant) {
                return Some(&rules[index]);
            }
            index = index + 1;
        }
        None
    }
}

} // verus!
