//! Tests of the wheel index.

use torch_check::address::{FetchPolicy, OFFICIAL_ROOT};
use torch_check::files::{
    accept_cache, check_cache_directory, check_cache_entry, check_lock_wait, check_replaceable,
    check_written_length, decode_page, FileFacts, MAX_CACHE_BYTES,
};
use torch_check::index::{
    begin_load, cache_file_name, cache_package_sets, cache_path_for, finish_load, is_stale,
    read_best_cache, snapshot_contains, validate_options, IndexOptions, LoadStep, TimeSpan,
};
use torch_check::index_error::IndexError;
use torch_check::links::{
    append_bounded, check_redirect, collect_anchors, discover_variants, expand_tags, parse_anchors,
    parse_wheel_link, parse_wheel_page, raw_text, sha256_fragment, single_child_name,
    validate_response, variants_of_anchors, wheels_of_anchors, IndexAnchor, RawText,
    INDEX_SCHEMA_VERSION, MAX_ANCHORS_PER_PAGE, MAX_COMPRESSED_TAGS, MAX_REDIRECTS,
};
use torch_check::model::{CudaVariant, FilePath, IndexSnapshot, MetadataOrigin, TorchWheel};
use torch_check::outside::UrlParts;
use torch_check::snapshot::{
    assemble_snapshot, collect_complete_pages, page_address, plan_pages, validate_snapshot,
};

fn test_policy() -> FetchPolicy {
    FetchPolicy::official().expect("valid built-in policy")
}

#[test]
fn defaults_request_only_torch() {
    let options = IndexOptions::default();
    assert_eq!(
        validate_options(&options).expect("valid defaults"),
        vec!["torch".to_owned()]
    );
    assert_eq!(options.ttl, TimeSpan::from_secs(86_400));
}

#[test]
fn invalid_package_and_conflicting_modes_are_rejected() {
    let mut options = IndexOptions {
        offline: true,
        refresh: true,
        ..IndexOptions::default()
    };
    assert!(validate_options(&options).is_err());
    options.packages = vec!["torch".to_owned()];
    options.total_timeout = TimeSpan::from_secs(0);
    assert!(validate_options(&options).is_err());
    options.offline = false;
    options.refresh = false;
    options.packages.push("evil".to_owned());
    assert!(validate_options(&options).is_err());
}

#[test]
fn variant_discovery_accepts_only_direct_cpu_and_cuda_children() {
    let html = r#"
      <a href="cpu/">cpu</a><a href="cu124/">cu124</a>
      <a href="rocm6.3/">rocm</a><a href="cu124/torch/">nested</a>
      <a href="https://example.invalid/cu130/">foreign</a>
    "#;
    let variants = discover_variants(html, &test_policy()).expect("parse variants");
    assert_eq!(
        variants,
        [CudaVariant::Cpu, "cu124".parse().expect("variant")]
    );
}

#[test]
fn anchor_tokenizer_ignores_markup_inside_raw_text_elements() {
    let html = r#"
      <script><a href="cu130/">not a link</a></script>
      <style><a href="cu131/">not a link</a></style>
      <a href="cu124/">cu124</a>
    "#;
    assert_eq!(
        discover_variants(html, &test_policy()).expect("parse variants"),
        ["cu124".parse().expect("variant")]
    );
}

#[test]
fn index_structure_limits_bound_variant_and_tag_expansion() {
    let html = (100..=164).fold(String::new(), |mut html, variant| {
        html.push_str(&format!(r#"<a href="cu{variant}/">cu{variant}</a>"#));
        html
    });
    assert!(matches!(
        discover_variants(&html, &test_policy()),
        Err(IndexError::InvalidIndex { .. })
    ));

    let tags = std::iter::repeat_n("cp313", MAX_COMPRESSED_TAGS + 1)
        .collect::<Vec<_>>()
        .join(".");
    assert!(matches!(
        expand_tags(
            &tags,
            "python",
            &UrlParts::parse("https://download.pytorch.org/whl/cpu/torch/").expect("URL")
        ),
        Err(IndexError::InvalidIndex { .. })
    ));
}

#[test]
fn parses_encoded_local_version_compressed_tags_hash_and_attributes() {
    let policy = test_policy();
    let page = UrlParts::parse("https://download.pytorch.org/whl/cu124/torch/").expect("URL");
    let hash = "a".repeat(64);
    let html = format!(
        r#"<a href="../../torch-2.6.0%2Bcu124-cp312.cp313-cp312.cp313-manylinux_2_17_x86_64.whl#sha256={hash}" data-requires-python="&gt;=3.9" data-yanked="bad build">wheel</a>"#
    );
    let wheels = parse_wheel_page(
        &html,
        &page,
        &policy,
        &"cu124".parse().expect("variant"),
        "torch",
    )
    .expect("parse wheel");
    assert_eq!(wheels.len(), 1);
    let wheel = &wheels[0];
    assert_eq!(wheel.version, "2.6.0+cu124");
    assert_eq!(wheel.public_version, "2.6.0");
    assert_eq!(wheel.python_tags, ["cp312", "cp313"]);
    assert_eq!(wheel.sha256.as_deref(), Some(hash.as_str()));
    assert!(wheel.yanked);
    assert_eq!(wheel.requires_python.as_deref(), Some(">=3.9"));
}

#[test]
fn malformed_pep440_and_hash_fail_the_whole_page() {
    let policy = test_policy();
    let page = UrlParts::parse("https://download.pytorch.org/whl/cu124/torch/").expect("URL");
    for href in [
        "torch-not!pep440-cp313-cp313-linux_x86_64.whl",
        "torch-2.6.0-cp313-cp313-linux_x86_64.whl#sha256=abcd",
    ] {
        let html = format!(r#"<a href="{href}">wheel</a>"#);
        assert!(
            parse_wheel_page(
                &html,
                &page,
                &policy,
                &"cu124".parse().expect("variant"),
                "torch"
            )
            .is_err(),
            "accepted {href}"
        );
    }
}

#[test]
fn accepts_the_optional_pep427_build_tag_used_by_official_wheels() {
    let url = UrlParts::parse(
        "https://download-r2.pytorch.org/whl/torch-2.0.0-1-cp311-cp311-manylinux2014_aarch64.whl",
    )
    .expect("URL");
    let wheel = parse_wheel_link(
        "torch",
        &"cu124".parse().expect("variant"),
        "torch-2.0.0-1-cp311-cp311-manylinux2014_aarch64.whl".to_owned(),
        &url,
        false,
        None,
    )
    .expect("build-tagged wheel");
    assert_eq!(wheel.version, "2.0.0");
}

#[test]
fn url_policy_is_exact_and_https_only() {
    let policy = test_policy();
    for accepted in [
        "https://download.pytorch.org/whl/",
        "https://download-r2.pytorch.org/whl/a.whl",
    ] {
        policy
            .validate_url(&UrlParts::parse(accepted).expect("URL"))
            .expect("allowed");
    }
    for rejected in [
        "http://download.pytorch.org/whl/",
        "https://download.pytorch.org.evil.test/whl/",
        "https://example.invalid/whl/",
        "https://download.pytorch.org:444/whl/",
    ] {
        assert!(
            policy
                .validate_url(&UrlParts::parse(rejected).expect("URL"))
                .is_err()
        );
    }
}

#[test]
fn cache_requires_all_requested_packages() {
    let snapshot = IndexSnapshot {
        schema_version: 1,
        fetched_at: 1,
        source: OFFICIAL_ROOT.to_owned(),
        packages: vec!["torch".to_owned(), "torchvision".to_owned()],
        variants: vec![CudaVariant::Cpu],
        wheels: Vec::new(),
    };
    assert!(snapshot_contains(&snapshot, &vec!["torch".to_owned()]));
    assert!(!snapshot_contains(
        &snapshot,
        &vec!["torch".to_owned(), "torchaudio".to_owned()]
    ));
}

#[test]
fn cache_files_are_isolated_by_package_set_and_supersets_are_discoverable() {
    let directory = FilePath::new("/cache");
    let directory = &directory;
    let torch = vec!["torch".to_owned()];
    let full = vec![
        "torch".to_owned(),
        "torchaudio".to_owned(),
        "torchvision".to_owned(),
    ];
    assert_ne!(
        cache_path_for(directory, &torch),
        cache_path_for(directory, &full)
    );
    assert!(cache_package_sets(&torch).contains(&full));
}

#[test]
fn decompressed_response_limit_is_enforced_without_partial_append() {
    let mut bytes = b"1234".to_vec();
    let error = append_bounded(&mut bytes, b"56789", 8, OFFICIAL_ROOT)
        .expect_err("must reject oversized response");
    assert!(matches!(error, IndexError::ResponseTooLarge { .. }));
    assert_eq!(bytes, b"1234");
}

#[test]
fn one_failed_page_prevents_a_partial_snapshot() {
    let results = vec![
        Ok(Vec::new()),
        Err(IndexError::HttpStatus {
            url: "https://download.pytorch.org/whl/cu124/torch/".to_owned(),
            status: 503,
        }),
    ];
    assert!(matches!(
        collect_complete_pages(results),
        Err(IndexError::IncompleteFetch(_))
    ));
}

fn facts(regular: bool, length: u64, mode: u32) -> FileFacts {
    FileFacts { symlink: false, directory: !regular, regular, length, mode: Some(mode) }
}

#[test]
fn existing_cache_directory_permissions_are_not_mutated() {
    let cache = FilePath::new("/tmp/existing-cache");
    assert!(check_cache_directory(&cache, &facts(false, 0, 0o40755)).is_none());
}

fn reason(error: Option<IndexError>) -> String {
    error.expect("rejected").to_string()
}

#[test]
fn caches_that_others_may_change_are_rejected() {
    let path = FilePath::new("/tmp/cache");
    let link = FileFacts { symlink: true, ..facts(false, 0, 0o755) };
    assert!(reason(check_cache_directory(&path, &link)).contains("not a symlink"));
    assert!(reason(check_cache_directory(&path, &facts(false, 0, 0o775)))
        .contains("must not be group- or world-writable"));
    assert!(reason(check_cache_directory(&path, &facts(false, 0, 0o757)))
        .contains("must not be group- or world-writable"));
    assert!(check_cache_entry(&path, &facts(true, 10, 0o600)).is_none());
    assert!(reason(check_cache_entry(&path, &facts(false, 10, 0o600))).contains("regular file"));
    assert!(reason(check_cache_entry(&path, &facts(true, MAX_CACHE_BYTES + 1, 0o600)))
        .contains("cache exceeds the size limit"));
    assert!(check_replaceable(&path, None).is_none());
    assert!(reason(check_replaceable(&path, Some(facts(false, 0, 0o700))))
        .contains("refusing to replace"));
    assert!(check_written_length(&path, MAX_CACHE_BYTES).is_none());
    assert!(reason(check_written_length(&path, MAX_CACHE_BYTES + 1))
        .contains("serialized cache exceeds the size limit"));
    assert!(check_lock_wait(&path, TimeSpan { seconds: 4, nanos: 999_999_999 }).is_none());
    assert_eq!(
        reason(check_lock_wait(&path, TimeSpan::from_secs(5))),
        "timed out waiting for cache lock at /tmp/cache"
    );
}

fn linked_wheel() -> TorchWheel {
    let address = format!(
        "https://download.pytorch.org/whl/cpu/torch-2.6.0-cp313-cp313-linux_x86_64.whl#sha256={}",
        "a".repeat(64)
    );
    parse_wheel_link(
        "torch",
        &CudaVariant::Cpu,
        "torch-2.6.0-cp313-cp313-linux_x86_64.whl".to_owned(),
        &UrlParts::parse(&address).expect("URL"),
        false,
        None,
    )
    .expect("wheel")
}

fn snapshot(fetched_at: u64) -> IndexSnapshot {
    IndexSnapshot {
        schema_version: INDEX_SCHEMA_VERSION,
        fetched_at,
        source: OFFICIAL_ROOT.to_owned(),
        packages: vec!["torch".to_owned()],
        variants: vec![CudaVariant::Cpu],
        wheels: vec![linked_wheel()],
    }
}

#[test]
fn a_valid_cache_file_is_accepted() {
    let path = cache_path_for(&FilePath::new("/tmp/cache"), &vec!["torch".to_owned()]);
    let loaded = accept_cache(&path, 1000, Ok(snapshot(1_000)), &test_policy(), 1_000)
        .expect("read cache");
    assert_eq!(loaded, snapshot(1_000));
}

#[test]
fn invalid_caches_are_not_used() {
    let path = FilePath::new("/tmp/cache/index.json");
    let policy = test_policy();
    let message = |length: u64, parsed: Result<IndexSnapshot, String>| {
        accept_cache(&path, length, parsed, &policy, 1_000).expect_err("rejected").to_string()
    };
    assert!(message(MAX_CACHE_BYTES + 1, Ok(snapshot(1))).contains("size limit"));
    assert!(message(1, Err("expected value".to_owned())).contains("expected value"));
    assert!(message(1, Ok(snapshot(1_301))).contains("implausibly far in the future"));
    let mut other = snapshot(1);
    other.schema_version = 2;
    assert!(message(1, Ok(other)).contains("unsupported schema version 2"));
    let mut other = snapshot(1);
    other.source = "https://example.invalid/".to_owned();
    assert!(message(1, Ok(other)).contains("source URL does not match"));
    let mut other = snapshot(1);
    other.packages = vec!["torchvision".to_owned()];
    assert!(message(1, Ok(other)).contains("package list"));
    let mut other = snapshot(1);
    other.variants = Vec::new();
    assert!(message(1, Ok(other)).contains("variant list"));
    let mut other = snapshot(1);
    other.wheels = Vec::new();
    assert!(message(1, Ok(other)).contains("no wheel links"));
    let mut other = snapshot(1);
    other.wheels.push(linked_wheel());
    assert!(message(1, Ok(other)).contains("duplicate wheel entry"));
    let mut other = snapshot(1);
    other.wheels[0].public_version = "9.9".to_owned();
    assert!(message(1, Ok(other)).contains("wheel fields disagree"));
    let mut other = snapshot(1);
    other.wheels[0].url = "https://example.invalid/a.whl".to_owned();
    assert!(validate_snapshot(&other, &policy, 1_000).is_err());
    assert!(validate_snapshot(&snapshot(1_300), &policy, 1_000).is_ok());
}

fn options() -> IndexOptions {
    IndexOptions::default()
}

fn torch() -> Vec<String> {
    vec!["torch".to_owned()]
}

#[test]
fn caches_and_the_network_are_combined() {
    let offline = IndexOptions { offline: true, ..options() };
    let LoadStep::Ready(ready) = begin_load(&offline, &torch(), Ok(Some(snapshot(1))), 999_999)
    else {
        panic!("an offline cache is used however old it is");
    };
    assert_eq!(ready.metadata.origin, MetadataOrigin::OfflineCache);
    assert!(ready.metadata.stale);
    assert_eq!(ready.metadata.age_seconds, 999_998);
    assert!(matches!(
        begin_load(&offline, &torch(), Ok(None), 5),
        LoadStep::Failed(IndexError::OfflineCacheUnavailable { .. })
    ));
    let LoadStep::Ready(ready) = begin_load(&options(), &torch(), Ok(Some(snapshot(100))), 200)
    else {
        panic!("a fresh cache is used");
    };
    assert_eq!(ready.metadata.origin, MetadataOrigin::FreshCache);
    let LoadStep::Fetch(plan) = begin_load(&options(), &torch(), Ok(Some(snapshot(1))), 999_999)
    else {
        panic!("a stale cache is refreshed");
    };
    let failed = Err(IndexError::Client("no network".to_owned()));
    let kept = finish_load(plan, failed, 999_999, options().ttl).expect("cached snapshot");
    assert_eq!(kept.metadata.origin, MetadataOrigin::StaleIfError);

    let refresh = IndexOptions { refresh: true, ..options() };
    let broken = Err(IndexError::CacheTask("broken".to_owned()));
    let LoadStep::Fetch(plan) = begin_load(&refresh, &torch(), broken, 5) else {
        panic!("a refresh fetches");
    };
    let failed = Err(IndexError::Client("no network".to_owned()));
    let error = finish_load(plan, failed, 5, options().ttl).expect_err("nothing left");
    assert!(error.to_string().contains("cached snapshot was unusable"), "{}", error.to_string());

    assert!(is_stale(&snapshot(1), 86_402, options().ttl));
    assert!(!is_stale(&snapshot(1), 86_401, options().ttl));
}

#[test]
fn the_newest_covering_cache_is_used() {
    let best = read_best_cache(
        vec![
            Ok(Some(snapshot(5))),
            Err(IndexError::CacheDirectoryUnavailable),
            Ok(Some(snapshot(9))),
            Ok(None),
        ],
        &torch(),
    )
    .expect("readable")
    .expect("found");
    assert_eq!(best.fetched_at, 9);
    let none = read_best_cache(
        vec![Ok(Some(snapshot(5))), Err(IndexError::CacheDirectoryUnavailable)],
        &vec!["torch".to_owned(), "torchaudio".to_owned()],
    );
    assert!(matches!(none, Err(IndexError::CacheDirectoryUnavailable)));
    assert_eq!(cache_file_name(&torch()), "index-v1-torch.json");
}

#[test]
fn responses_are_checked_before_and_while_they_are_read() {
    let url = "https://download.pytorch.org/whl/";
    let html = Some("Text/HTML; charset=utf-8".to_owned());
    assert!(validate_response(url, 200, Some(10), &html, 10).is_ok());
    assert!(matches!(
        validate_response(url, 404, None, &html, 10),
        Err(IndexError::HttpStatus { status: 404, .. })
    ));
    assert!(matches!(
        validate_response(url, 200, Some(11), &html, 10),
        Err(IndexError::ResponseTooLarge { limit: 10, .. })
    ));
    assert!(matches!(
        validate_response(url, 200, None, &Some("image/png".to_owned()), 10),
        Err(IndexError::InvalidIndex { .. })
    ));
    assert!(validate_response(url, 200, None, &None, 10).is_ok());
    let mut bytes = Vec::new();
    append_bounded(&mut bytes, b"12", 3, url).expect("fits");
    assert_eq!(bytes, b"12");
    assert_eq!(decode_page(b"<a>".to_vec(), url).expect("text"), "<a>");
    assert_eq!(
        decode_page(vec![b'a', 0xff], url).expect_err("no text").to_string(),
        "invalid index response from https://download.pytorch.org/whl/: response is not UTF-8: \
         invalid utf-8 sequence of 1 bytes from index 1"
    );
    let policy = test_policy();
    let target = UrlParts::parse(url).expect("URL");
    assert!(check_redirect(&policy, MAX_REDIRECTS - 1, &target).is_ok());
    assert!(check_redirect(&policy, MAX_REDIRECTS, &target).is_err());
    let foreign = UrlParts::parse("https://example.invalid/").expect("URL");
    assert!(check_redirect(&policy, 0, &foreign).is_err());
}

#[test]
fn pages_are_planned_and_assembled() {
    let policy = test_policy();
    let variants = vec![CudaVariant::Cpu, "cu124".parse().expect("variant")];
    let pages = plan_pages(&policy, &variants, &torch()).expect("plan");
    assert_eq!(pages.len(), 2);
    assert_eq!(
        page_address(&policy, &pages[1].0, &pages[1].1).expect("address").text,
        "https://download.pytorch.org/whl/cu124/torch/"
    );
    assert!(plan_pages(&policy, &Vec::new(), &torch()).is_err());
    let assembled = assemble_snapshot(
        &policy,
        7,
        torch(),
        vec![CudaVariant::Cpu],
        vec![Ok(vec![linked_wheel(), linked_wheel()])],
    )
    .expect("snapshot");
    assert_eq!(assembled, snapshot(7));
    let path = cache_path_for(&FilePath::new("/tmp/cache"), &assembled.packages);
    let read_back = accept_cache(&path, 100, Ok(assembled.clone()), &policy, 8).expect("accepted");
    assert_eq!(read_back, assembled);
    assert!(assemble_snapshot(
        &policy,
        7,
        torch(),
        vec![CudaVariant::Cpu],
        vec![Ok(vec![linked_wheel()]), Err(IndexError::CacheDirectoryUnavailable)],
    )
    .is_err());
}

#[test]
fn links_are_taken_apart() {
    let root = UrlParts::parse(OFFICIAL_ROOT).expect("URL");
    let child = root.join("cu124/").expect("URL");
    assert_eq!(child.text, "https://download.pytorch.org/whl/cu124/");
    assert_eq!(single_child_name(&root, &child).as_deref(), Some("cu124"));
    assert_eq!(single_child_name(&root, &root), None);
    let hashed = UrlParts::parse("https://a/b#sha256=00&sha256=11").expect("URL");
    assert!(sha256_fragment(&hashed).is_err());
    let plain = UrlParts::parse("https://a/b").expect("URL");
    assert_eq!(sha256_fragment(&plain).expect("no hash"), None);
    assert_eq!(
        expand_tags("cp312.cp313", "python", &plain).expect("tags"),
        ["cp312", "cp313"]
    );
}

#[test]
fn every_index_error_has_a_message() {
    for (error, message) in [
        (IndexError::InvalidOptions("x".to_owned()), "x"),
        (IndexError::CacheDirectoryUnavailable, "cache"),
        (
            IndexError::CacheIo { path: FilePath::new("/p"), source: "denied".to_owned() },
            "denied",
        ),
        (IndexError::OfflineCacheUnavailable { packages: "torch".to_owned() }, "torch"),
        (IndexError::Client("tls".to_owned()), "tls"),
        (IndexError::Request { url: "u".to_owned(), source: "refused".to_owned() }, "refused"),
        (IndexError::HttpStatus { url: "u".to_owned(), status: 503 }, "503"),
        (IndexError::UrlPolicy { url: "u".to_owned(), reason: "foreign".to_owned() }, "foreign"),
        (IndexError::ResponseTooLarge { url: "u".to_owned(), limit: 8 }, "8"),
        (IndexError::FetchTimedOut { timeout_seconds: 120 }, "120"),
        (IndexError::CacheTask("joined".to_owned()), "joined"),
        (IndexError::CacheSerialization("cyclic".to_owned()), "cyclic"),
    ] {
        assert!(error.to_string().contains(message), "{}", error.to_string());
    }
}

fn anchor(href: &str) -> (String, Vec<(String, String)>) {
    ("a".to_owned(), vec![("href".to_owned(), href.to_owned())])
}

#[test]
fn anchors_are_read_from_the_text_of_a_page() {
    let html = r#"<!DOCTYPE html><html><head><meta name="x" href="meta"></head><body>
      <a href="first.whl?a=1&amp;b=2" data-requires-python="&gt;=3.9">first</a>
      <A HREF='second.whl' Data-Yanked>second</A>
      <a name="no link">third</a></a href="end tag"><!-- <a href="comment"> -->
      <a href="fourth.whl" href="other.whl" data-yanked="reason"/></body>"#;
    let anchors = parse_anchors(html, &test_policy().root).expect("readable page");
    assert_eq!(anchors.len(), 3);
    assert_eq!(anchors[0].href, "first.whl?a=1&b=2");
    assert_eq!(anchors[0].requires_python.as_deref(), Some(">=3.9"));
    assert!(!anchors[0].yanked);
    assert_eq!(anchors[1].href, "second.whl");
    assert_eq!(anchors[1].requires_python, None);
    assert!(anchors[1].yanked);
    assert_eq!(anchors[2].href, "fourth.whl");
    assert!(anchors[2].yanked);
    assert!(parse_anchors("", &test_policy().root).expect("empty page").is_empty());
}

#[test]
fn text_without_markup_holds_no_anchor() {
    for name in [
        "title", "textarea", "style", "xmp", "iframe", "noembed", "noframes", "noscript", "script",
    ] {
        let html = format!("<{name}><a href=\"inside\"></{name}><a href=\"outside\">");
        let anchors = parse_anchors(&html, &test_policy().root).expect("readable page");
        assert_eq!(anchors.len(), 1, "{name}");
        assert_eq!(anchors[0].href, "outside");
    }
    let anchors = parse_anchors("<div><a href=\"inside\"></div>", &test_policy().root)
        .expect("readable page");
    assert_eq!(anchors[0].href, "inside");
}

#[test]
fn elements_with_text_without_markup_are_known() {
    assert_eq!(raw_text("title"), Some(RawText::Rcdata));
    assert_eq!(raw_text("noscript"), Some(RawText::Rawtext));
    assert_eq!(raw_text("script"), Some(RawText::Script));
    assert_eq!(raw_text("a"), None);
    assert_eq!(raw_text("Script"), None);
}

#[test]
fn a_page_that_was_not_read_to_the_end_is_refused() {
    let root = test_policy().root;
    assert!(matches!(
        collect_anchors(&vec![anchor("cpu/")], false, &root),
        Err(IndexError::InvalidIndex { url, reason })
            if url == OFFICIAL_ROOT
                && reason == "HTML tokenizer did not consume the complete document"
    ));
    let anchors = collect_anchors(
        &vec![("p".to_owned(), anchor("cpu/").1), anchor("cu124/"), ("a".to_owned(), vec![])],
        true,
        &root,
    )
    .expect("complete page");
    assert_eq!(anchors.len(), 1);
    assert_eq!(anchors[0].href, "cu124/");
}

#[test]
fn a_page_holds_a_limited_number_of_anchors() {
    let full = "<a href=x>".repeat(MAX_ANCHORS_PER_PAGE);
    assert_eq!(
        parse_anchors(&full, &test_policy().root).expect("full page").len(),
        MAX_ANCHORS_PER_PAGE
    );
    let over = format!("{full}<a href=x>");
    assert!(matches!(
        parse_anchors(&over, &test_policy().root),
        Err(IndexError::InvalidIndex { url, reason })
            if url == OFFICIAL_ROOT && reason == "index exceeds the 100000-anchor limit"
    ));
    assert!(matches!(
        discover_variants(&over, &test_policy()),
        Err(IndexError::InvalidIndex { reason, .. })
            if reason == "index exceeds the 100000-anchor limit"
    ));
}

#[test]
fn anchors_lead_to_variants_and_wheels() {
    let policy = test_policy();
    let link = |href: &str| IndexAnchor {
        href: href.to_owned(),
        requires_python: None,
        yanked: false,
    };
    assert_eq!(
        variants_of_anchors(&vec![link("cu124/"), link("cpu/"), link("other/")], &policy)
            .expect("variants"),
        vec![CudaVariant::Cpu, "cu124".parse().expect("variant")]
    );
    let page = page_address(&policy, &CudaVariant::Cpu, "torch").expect("page");
    let wheels = wheels_of_anchors(
        &vec![
            link("/whl/cpu/torch-2.1.0-cp311-cp311-linux_x86_64.whl"),
            link("/whl/cpu/torch-2.0.0-cp311-cp311-linux_x86_64.whl"),
        ],
        &page,
        &policy,
        &CudaVariant::Cpu,
        "torch",
    )
    .expect("wheels");
    let names: Vec<&str> = wheels.iter().map(|wheel| wheel.filename.as_str()).collect();
    assert_eq!(
        names,
        vec![
            "torch-2.0.0-cp311-cp311-linux_x86_64.whl",
            "torch-2.1.0-cp311-cp311-linux_x86_64.whl",
        ]
    );
}
