//! Web addresses and the policy that decides which of them may be fetched.

use crate::index_error::{IndexError, IndexErrorView};
use crate::outside::{join_url, split_url, url_joined, url_parts, UrlParts, UrlPartsView};
use crate::text::{concat2, contains_text, outcome, push_item, same};
use vstd::prelude::*;
use vstd::utf8::encode_utf8;

verus! {

/// Root of the official wheel index.
pub const OFFICIAL_ROOT: &'static str = "https://download.pytorch.org/whl/";

/// The number of bytes that `text` takes in UTF-8.
pub fn byte_length(text: &str) -> (length: usize)
    ensures
        length == encode_utf8(text@).len(),
{
    text.as_bytes().len()
}

/// Which addresses may be fetched.
#[derive(Debug)]
pub struct FetchPolicy {
    /// Root of the index.
    pub root: UrlParts,
    /// The hosts that may be asked.
    pub allowed_hosts: Vec<String>,
    /// Whether only HTTPS on its default port is accepted.
    pub require_https: bool,
}

/// The model of [`FetchPolicy`].
#[verifier::ext_equal]
pub struct FetchPolicyView {
    pub root: UrlPartsView,
    pub allowed_hosts: Seq<Seq<char>>,
    pub require_https: bool,
}

impl DeepView for FetchPolicy {
    type V = FetchPolicyView;

    open spec fn deep_view(&self) -> FetchPolicyView {
        FetchPolicyView {
            root: self.root.deep_view(),
            allowed_hosts: self.allowed_hosts.deep_view(),
            require_https: self.require_https,
        }
    }
}

/// Why an address may not be fetched.
pub open spec fn policy_objection(policy: FetchPolicyView, url: UrlPartsView) -> Option<Seq<char>> {
    if policy.require_https && url.scheme != "https"@ {
        Some("HTTPS is required"@)
    } else if url.username.len() > 0 || url.password is Some {
        Some("credentials are forbidden"@)
    } else if url.host is None {
        Some("host is missing"@)
    } else if !policy.allowed_hosts.contains(url.host->0) {
        Some("host is not on the exact allowlist"@)
    } else if policy.require_https && (url.port matches Some(port) && port != 443) {
        Some("non-default HTTPS port is forbidden"@)
    } else {
        None
    }
}

/// The error that an address may not be fetched.
pub open spec fn policy_error(policy: FetchPolicyView, url: UrlPartsView) -> Option<IndexErrorView> {
    match policy_objection(policy, url) {
        Some(reason) => Some(IndexErrorView::UrlPolicy { url: url.text, reason }),
        None => None,
    }
}

/// The policy for the official index with a given root.
pub open spec fn official_policy(root: UrlPartsView) -> FetchPolicyView {
    FetchPolicyView {
        root,
        allowed_hosts: seq!["download.pytorch.org"@, "download-r2.pytorch.org"@],
        require_https: true,
    }
}

/// An address passes the official policy exactly if it uses HTTPS on the default port, holds
/// no credentials, and names one of the two official hosts.
pub proof fn official_policy_is_exact(root: UrlPartsView, url: UrlPartsView)
    ensures
        policy_objection(official_policy(root), url) is None <==> {
            &&& url.scheme == "https"@
            &&& url.username.len() == 0
            &&& url.password is None
            &&& url.host == Some("download.pytorch.org"@) || url.host == Some(
                "download-r2.pytorch.org"@,
            )
            &&& url.port is None || url.port == Some(443u16)
        },
{
    let hosts = official_policy(root).allowed_hosts;
    assert(hosts[0] == "download.pytorch.org"@);
    assert(hosts[1] == "download-r2.pytorch.org"@);
    if let Some(host) = url.host {
        assert(hosts.contains(host) <==> host == hosts[0] || host == hosts[1]);
    }
}

impl UrlParts {
    /// Parses an absolute address.
    pub fn parse(text: &str) -> (result: Result<UrlParts, String>)
        ensures
            outcome(result) == url_parts(text@),
    {
        split_url(text)
    }

    /// The address that `reference` stands for on this page, or the message of the error.
    pub fn join(&self, reference: &str) -> (result: Result<UrlParts, String>)
        ensures
            outcome(result) == joined_parts(self.deep_view(), reference@),
    {
        match join_url(self.text.as_str(), reference) {
            Ok(text) => split_url(text.as_str()),
            Err(message) => Err(message),
        }
    }
}

/// What `reference` stands for on a page.
pub open spec fn joined_parts(page: UrlPartsView, reference: Seq<char>) -> Result<
    UrlPartsView,
    Seq<char>,
> {
    match url_joined(page.text, reference) {
        Ok(text) => url_parts(text),
        Err(message) => Err(message),
    }
}

impl FetchPolicy {
    /// The policy for an official index with the given root, if that passes its own policy.
    pub fn with_root(root: UrlParts) -> (result: Result<FetchPolicy, IndexError>)
        ensures
            outcome(result) == (match policy_error(
                official_policy(root.deep_view()),
                root.deep_view(),
            ) {
                Some(error) => Err(error),
                None => Ok(official_policy(root.deep_view())),
            }),
    {
        let mut allowed_hosts: Vec<String> = Vec::new();
        push_item(&mut allowed_hosts, "download.pytorch.org".to_owned());
        push_item(&mut allowed_hosts, "download-r2.pytorch.org".to_owned());
        let policy = FetchPolicy { root, allowed_hosts, require_https: true };
        assert(policy.deep_view().allowed_hosts =~= official_policy(
            root.deep_view(),
        ).allowed_hosts);
        match policy.validate_url(&policy.root) {
            Ok(()) => Ok(policy),
            Err(error) => Err(error),
        }
    }

    /// The policy for the official index.
    pub fn official() -> (result: Result<FetchPolicy, IndexError>)
        ensures
            outcome(result) == (match url_parts(OFFICIAL_ROOT@) {
                Err(message) => Err(
                    IndexErrorView::InvalidOptions("invalid built-in index URL: "@ + message),
                ),
                Ok(root) => match policy_error(official_policy(root), root) {
                    Some(error) => Err(error),
                    None => Ok(official_policy(root)),
                },
            }),
    {
        match UrlParts::parse(OFFICIAL_ROOT) {
            Ok(root) => FetchPolicy::with_root(root),
            Err(message) => Err(
                IndexError::InvalidOptions(
                    concat2("invalid built-in index URL: ", message.as_str()),
                ),
            ),
        }
    }

    fn objection(&self, url: &UrlParts) -> (reason: Option<&'static str>)
        ensures
            (match reason {
                Some(text) => Some(text@),
                None => None,
            }) == policy_objection(self.deep_view(), url.deep_view()),
    {
        if self.require_https && !same(url.scheme.as_str(), "https") {
            return Some("HTTPS is required");
        }
        if !url.username.as_str().is_empty() || url.password.is_some() {
            return Some("credentials are forbidden");
        }
        let host = match &url.host {
            Some(host) => host,
            None => {
                return Some("host is missing");
            },
        };
        if !contains_text(&self.allowed_hosts, host.as_str()) {
            return Some("host is not on the exact allowlist");
        }
        if let Some(port) = url.port {
            if self.require_https && port != 443 {
                return Some("non-default HTTPS port is forbidden");
            }
        }
        None
    }

    /// Rejects an address that may not be fetched.
    pub fn validate_url(&self, url: &UrlParts) -> (result: Result<(), IndexError>)
        ensures
            result is Ok <==> policy_error(self.deep_view(), url.deep_view()) is None,
            result matches Err(error) ==> policy_error(self.deep_view(), url.deep_view()) == Some(
                error.deep_view(),
            ),
    {
        match self.objection(url) {
            Some(reason) => Err(
                IndexError::UrlPolicy { url: url.text.clone(), reason: reason.to_owned() },
            ),
            None => Ok(()),
        }
    }
}

} // verus!
