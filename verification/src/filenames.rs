//! What is read of a wheel file name is what the name was made of.

use crate::links::{
    build_valid, expanded_tags, sha256_of, sha256_valid, sha256_values, tag_valid, tags_of,
    wheel_fields, wheel_link,
};
use crate::model::CudaVariant;
use crate::outside::{pep440_text, UrlPartsView};
use crate::pieces::{
    after_prefix, before, before_suffix, join, join_split_round_trip, position, split_first,
    split_join_round_trip, split_of_one_piece, split_on,
};
use crate::text::{alphanumeric, digit, lowercase};
use vstd::prelude::*;
use vstd::utf8::encode_utf8;

verus! {

/// A character that does not stand in a text is found behind its end.
pub proof fn absent_character_is_behind_the_end(text: Seq<char>, character: char)
    requires
        !text.contains(character),
    ensures
        position(text, character) == text.len(),
        before(text, character) == text,
        split_first(text, character) is None,
    decreases text.len(),
{
    if text.len() > 0 {
        assert(text.contains(text[0]));
        assert forall|i: int| 0 <= i < text.len() - 1 implies #[trigger] text.skip(1)[i]
            != character by {
            assert(text.contains(text[i + 1]));
        }
        absent_character_is_behind_the_end(text.skip(1), character);
    }
    assert(text.take(text.len() as int) =~= text);
}

/// What stands around the first separator is the text.
pub proof fn first_separator_splits(text: Seq<char>, separator: char)
    ensures
        position(text, separator) <= text.len(),
        !before(text, separator).contains(separator),
        split_first(text, separator) matches Some(halves) ==> text == halves.0 + seq![separator]
            + halves.1 && !halves.0.contains(separator) && halves.0 == before(text, separator),
        split_first(text, separator) is None ==> !text.contains(separator),
    decreases text.len(),
{
    let at = position(text, separator) as int;
    if text.len() > 0 && text[0] != separator {
        let rest = text.skip(1);
        first_separator_splits(rest, separator);
        assert(before(text, separator) =~= seq![text[0]] + before(rest, separator));
        assert forall|i: int| 0 <= i < at implies #[trigger] text.take(at)[i] != separator by {
            if i > 0 {
                assert(text.take(at)[i] == before(rest, separator)[i - 1]);
                assert(before(rest, separator).contains(before(rest, separator)[i - 1]));
            }
        }
        if at < text.len() {
            let halves = split_first(rest, separator)->0;
            assert(rest[at - 1] == separator) by {
                assert(rest == halves.0 + seq![separator] + halves.1);
                assert(halves.0.len() == at - 1);
            }
            assert(text =~= text.take(at) + seq![separator] + text.skip(at + 1));
        } else {
            assert forall|i: int| 0 <= i < text.len() implies #[trigger] text[i] != separator by {
                if i > 0 {
                    assert(rest[i - 1] == text[i]);
                    assert(rest.contains(rest[i - 1]));
                }
            }
        }
    } else if text.len() > 0 {
        assert(text =~= text.take(0) + seq![separator] + text.skip(1));
    }
}

/// The name of a wheel file: the package, the version, a build tag where there is one, and the
/// Python, ABI and platform fields, joined by dashes.
pub open spec fn wheel_name(
    package: Seq<char>,
    version: Seq<char>,
    build: Option<Seq<char>>,
    python: Seq<char>,
    abi: Seq<char>,
    platform: Seq<char>,
) -> Seq<char> {
    package + "-"@ + version + (match build {
        Some(tag) => "-"@ + tag,
        None => Seq::empty(),
    }) + "-"@ + python + "-"@ + abi + "-"@ + platform + ".whl"@
}

proof fn body_of_a_name(package: Seq<char>, body: Seq<char>)
    ensures
        before_suffix(package + "-"@ + body + ".whl"@, ".whl"@) == Some(package + "-"@ + body),
        after_prefix(package + "-"@ + body, package + "-"@) == Some(body),
{
    let stem = package + "-"@ + body;
    let name = stem + ".whl"@;
    assert(".whl"@.is_suffix_of(name)) by {
        assert(name.subrange(name.len() - ".whl"@.len(), name.len() as int) =~= ".whl"@);
    }
    assert(name.take(name.len() - ".whl"@.len()) =~= stem);
    assert((package + "-"@).is_prefix_of(stem)) by {
        assert(stem.subrange(0, (package + "-"@).len() as int) =~= package + "-"@);
    }
    assert(stem.skip((package + "-"@).len() as int) =~= body);
}

proof fn four_joined(a: Seq<char>, b: Seq<char>, c: Seq<char>, d: Seq<char>)
    ensures
        join(seq![a, b, c, d], "-"@) == a + "-"@ + b + "-"@ + c + "-"@ + d,
        join(seq![a], "-"@) == a,
{
    let all = seq![a, b, c, d];
    assert(all.drop_last() =~= seq![a, b, c]);
    assert(all.drop_last().drop_last() =~= seq![a, b]);
    assert(all.drop_last().drop_last().drop_last() =~= seq![a]);
    reveal_with_fuel(join, 5);
}

/// A build tag holds no dash.
proof fn builds_hold_no_dash(build: Seq<char>)
    requires
        build_valid(build),
    ensures
        !build.contains('-'),
{
    assert(!alphanumeric('-'));
}

#[verifier::spinoff_prover]
#[verifier::rlimit(40)]
proof fn built_name_is_split(
    package: Seq<char>,
    version: Seq<char>,
    tag: Seq<char>,
    python: Seq<char>,
    abi: Seq<char>,
    platform: Seq<char>,
)
    requires
        !version.contains('-'),
        !tag.contains('-'),
        !python.contains('-'),
        !abi.contains('-'),
        !platform.contains('-'),
    ensures
        ({
            let name = wheel_name(package, version, Some(tag), python, abi, platform);
            if build_valid(tag) {
                wheel_fields(package, name) matches Ok(fields) && fields.version == version
                    && fields.python == python && fields.abi == abi && fields.platform == platform
            } else {
                wheel_fields(package, name) is Err
            }
        }),
{
    reveal_strlit("-");
    assert("-"@ =~= seq!['-']);
    let head = version + "-"@ + tag;
    let body = head + "-"@ + python + "-"@ + abi + "-"@ + platform;
    let name = wheel_name(package, version, Some(tag), python, abi, platform);
    assert(name =~= package + "-"@ + body + ".whl"@);
    body_of_a_name(package, body);
    let parts = seq![version, tag, python, abi, platform];
    assert forall|i: int| 0 <= i < parts.len() implies !(#[trigger] parts[i]).contains(
        '-',
    ) by {}
    join_split_round_trip(parts, '-');
    assert(parts.drop_last() =~= seq![version, tag, python, abi]);
    four_joined(version, tag, python, abi);
    assert(join(parts, "-"@) =~= body);
    assert(split_on(body, '-') == parts);
    let lead = parts.take(2);
    assert(lead =~= seq![version, tag]);
    assert(lead.drop_last() =~= seq![version]);
    assert(join(lead, "-"@) =~= head) by {
        reveal_with_fuel(join, 3);
    }
    first_separator_splits(head, '-');
    assert(head[version.len() as int] == '-');
    assert(head.contains('-'));
    let halves = split_first(head, '-')->0;
    assert(head == halves.0 + seq!['-'] + halves.1);
    assert(halves.0.len() == version.len()) by {
        if halves.0.len() < version.len() {
            assert(head[halves.0.len() as int] == '-');
            assert(version[halves.0.len() as int] == '-');
            assert(version.contains('-'));
        } else if halves.0.len() > version.len() {
            assert(halves.0[version.len() as int] == '-');
            assert(halves.0.contains('-'));
        }
    }
    assert(halves.0 =~= version) by {
        assert(head.take(version.len() as int) =~= version);
        assert(head.take(version.len() as int) =~= halves.0);
    }
    assert(halves.1 =~= tag) by {
        assert(head.skip(version.len() as int + 1) =~= tag);
        assert(head.skip(version.len() as int + 1) =~= halves.1);
    }
}

/// Reading the name that a version and Python, ABI and platform fields without dashes make gives
/// these four back, with a build tag in the name and without one.
pub proof fn wheel_name_is_read_back(
    package: Seq<char>,
    version: Seq<char>,
    build: Option<Seq<char>>,
    python: Seq<char>,
    abi: Seq<char>,
    platform: Seq<char>,
)
    requires
        !version.contains('-'),
        !python.contains('-'),
        !abi.contains('-'),
        !platform.contains('-'),
        build matches Some(tag) ==> tag.len() > 0 && digit(tag[0]) && forall|i: int|
            0 <= i < tag.len() ==> (alphanumeric(#[trigger] tag[i]) || tag[i] == '_'),
    ensures
        wheel_fields(package, wheel_name(package, version, build, python, abi, platform)) matches
            Ok(fields) && fields.version == version && fields.python == python && fields.abi == abi
            && fields.platform == platform,
{
    reveal_strlit("-");
    assert("-"@ =~= seq!['-']);
    let head = match build {
        Some(tag) => version + "-"@ + tag,
        None => version,
    };
    let body = head + "-"@ + python + "-"@ + abi + "-"@ + platform;
    let name = wheel_name(package, version, build, python, abi, platform);
    assert(name =~= package + "-"@ + body + ".whl"@);
    body_of_a_name(package, body);
    match build {
        None => {
            let parts = seq![version, python, abi, platform];
            four_joined(version, python, abi, platform);
            assert forall|i: int| 0 <= i < parts.len() implies !(#[trigger] parts[i]).contains(
                '-',
            ) by {}
            join_split_round_trip(parts, '-');
            assert(split_on(body, '-') == parts);
            assert(parts.take(1) =~= seq![version]);
            absent_character_is_behind_the_end(version, '-');
        },
        Some(tag) => {
            builds_hold_no_dash(tag);
            built_name_is_split(package, version, tag, python, abi, platform);
        },
    }
}

proof fn last_three_joined(parts: Seq<Seq<char>>)
    requires
        parts.len() >= 4,
    ensures
        ({
            let count = parts.len() as int;
            join(parts, "-"@) == join(parts.take(count - 3), "-"@) + "-"@ + parts[count - 3] + "-"@
                + parts[count - 2] + "-"@ + parts[count - 1]
        }),
{
    let count = parts.len() as int;
    let one = parts.drop_last();
    let two = one.drop_last();
    assert(two.drop_last() =~= parts.take(count - 3));
    assert(one.last() == parts[count - 2]);
    assert(two.last() == parts[count - 3]);
    reveal_with_fuel(join, 4);
}

/// Joining the fields that were read of a file name with dashes, and a build tag with them where
/// the name has one, gives the name again.
pub proof fn read_fields_make_the_name(package: Seq<char>, filename: Seq<char>)
    ensures
        wheel_fields(package, filename) matches Ok(fields) ==> exists|build: Option<Seq<char>>|
            filename == #[trigger] wheel_name(
                package,
                fields.version,
                build,
                fields.python,
                fields.abi,
                fields.platform,
            ),
        wheel_fields(package, filename) matches Ok(fields) ==> !fields.version.contains('-'),
{
    if let Ok(fields) = wheel_fields(package, filename) {
        reveal_strlit("-");
        assert("-"@ =~= seq!['-']);
        let stem = before_suffix(filename, ".whl"@)->0;
        let body = after_prefix(stem, package + "-"@)->0;
        let parts = split_on(body, '-');
        let count = parts.len() as int;
        let head = join(parts.take(count - 3), "-"@);
        assert(filename =~= stem + ".whl"@);
        assert(stem =~= package + "-"@ + body);
        split_join_round_trip(body, '-');
        last_three_joined(parts);
        first_separator_splits(head, '-');
        let build = match split_first(head, '-') {
            None => None,
            Some(halves) => Some(halves.1),
        };
        assert(filename =~= wheel_name(
            package,
            fields.version,
            build,
            fields.python,
            fields.abi,
            fields.platform,
        ));
    }
}

/// Whether tags can stand in a field of a wheel name: there is at least one and not too many, and
/// each is made of letters, digits and underscores.
pub open spec fn plain_tags(tags: Seq<Seq<char>>) -> bool {
    &&& 0 < tags.len() <= 64
    &&& forall|i: int| 0 <= i < tags.len() ==> plain_tag(#[trigger] tags[i])
}

/// Whether a text is made of lower-case letters, digits and underscores, and there is one.
pub open spec fn plain_tag(tag: Seq<char>) -> bool {
    tag.len() > 0 && forall|i: int|
        0 <= i < tag.len() ==> ('a' <= #[trigger] tag[i] <= 'z' || '0' <= tag[i] <= '9' || tag[i]
            == '_')
}

proof fn plain_tags_are_read_back(tags: Seq<Seq<char>>, kind: Seq<char>, url: Seq<char>)
    requires
        plain_tags(tags),
    ensures
        !join(tags, "."@).contains('-'),
        tags_of(join(tags, "."@), kind, url) matches Ok(found) && found == tags,
{
    reveal_strlit(".");
    assert("."@ =~= seq!['.']);
    assert forall|i: int| 0 <= i < tags.len() implies !(#[trigger] tags[i]).contains('.')
        && !tags[i].contains('-') by {
        assert(plain_tag(tags[i]));
        assert forall|k: int| 0 <= k < tags[i].len() implies #[trigger] tags[i][k] != '.'
            && tags[i][k] != '-' by {}
    }
    join_split_round_trip(tags, '.');
    joined_without(tags, '-');
    let found = expanded_tags(join(tags, "."@));
    assert forall|i: int| 0 <= i < tags.len() implies #[trigger] found[i] == tags[i] && tag_valid(
        found[i],
    ) by {
        assert(plain_tag(tags[i]));
        assert(lowercase(tags[i]) =~= tags[i]);
    }
    assert(found =~= tags);
}

proof fn joined_without(tags: Seq<Seq<char>>, character: char)
    requires
        character != '.',
        forall|i: int| 0 <= i < tags.len() ==> !(#[trigger] tags[i]).contains(character),
    ensures
        !join(tags, "."@).contains(character),
    decreases tags.len(),
{
    reveal_strlit(".");
    if tags.len() > 1 {
        let head = tags.drop_last();
        assert forall|i: int| 0 <= i < head.len() implies !(#[trigger] head[i]).contains(
            character,
        ) by {
            assert(head[i] == tags[i]);
        }
        joined_without(head, character);
        let text = join(tags, "."@);
        let lead = join(head, "."@);
        let last = tags[tags.len() - 1];
        assert(text == lead + "."@ + last);
        assert forall|k: int| 0 <= k < text.len() implies #[trigger] text[k] != character by {
            if k < lead.len() {
                assert(lead.contains(lead[k]));
            } else if k > lead.len() {
                assert(last.contains(last[k - lead.len() - 1]));
                assert(text[k] == last[k - lead.len() - 1]);
            } else {
                assert(text[k] == '.');
            }
        }
    } else if tags.len() == 1 {
        assert(join(tags, "."@) == tags[0]);
    }
}

/// Reading a link to a wheel gives what its file name was made of: the version in its normal form,
/// without the local label where that is left out, and the Python, ABI and platform tags; and what
/// the page says of it: the package, the variant, the address, and whether it is withdrawn.
pub proof fn wheel_link_is_read_back(
    package: Seq<char>,
    variant: CudaVariant,
    version: Seq<char>,
    build: Option<Seq<char>>,
    python_tags: Seq<Seq<char>>,
    abi_tags: Seq<Seq<char>>,
    platform_tags: Seq<Seq<char>>,
    url: UrlPartsView,
    yanked: bool,
    requires_python: Option<Seq<char>>,
)
    requires
        !version.contains('-'),
        build matches Some(tag) ==> tag.len() > 0 && digit(tag[0]) && forall|i: int|
            0 <= i < tag.len() ==> (alphanumeric(#[trigger] tag[i]) || tag[i] == '_'),
        plain_tags(python_tags),
        plain_tags(abi_tags),
        plain_tags(platform_tags),
        url.fragment is None,
        encode_utf8(url.text).len() <= 8192,
    ensures
        ({
            let filename = wheel_name(
                package,
                version,
                build,
                join(python_tags, "."@),
                join(abi_tags, "."@),
                join(platform_tags, "."@),
            );
            pep440_text(version) is Some && encode_utf8(filename).len() <= 1024 && !(exists|i: int|
                0 <= i < filename.len() && (#[trigger] filename[i] == '/' || filename[i] == '\\'
                    || filename[i] == '\0')) ==> (wheel_link(
                package,
                variant,
                filename,
                url,
                yanked,
                requires_python,
            ) matches Ok(wheel) && wheel.package == package && wheel.filename == filename
                && wheel.variant == variant && wheel.version == pep440_text(version)->0
                && wheel.python_tags == python_tags && wheel.abi_tags == abi_tags
                && wheel.platform_tags == platform_tags && wheel.url == url.text && wheel.sha256
                is None && wheel.yanked == yanked && wheel.requires_python == requires_python
                && !wheel.public_version.contains('+') && (wheel.version == wheel.public_version
                || (wheel.public_version + "+"@).is_prefix_of(wheel.version)))
        }),
{
    let python = join(python_tags, "."@);
    let abi = join(abi_tags, "."@);
    let platform = join(platform_tags, "."@);
    plain_tags_are_read_back(python_tags, "python"@, url.text);
    plain_tags_are_read_back(abi_tags, "ABI"@, url.text);
    plain_tags_are_read_back(platform_tags, "platform"@, url.text);
    wheel_name_is_read_back(package, version, build, python, abi, platform);
    if let Some(normal) = pep440_text(version) {
        first_separator_splits(normal, '+');
        let shown = before(normal, '+');
        reveal_strlit("+");
        assert("+"@ =~= seq!['+']);
        match split_first(normal, '+') {
            None => {
                absent_character_is_behind_the_end(normal, '+');
            },
            Some(halves) => {
                assert((shown + "+"@).is_prefix_of(normal)) by {
                    assert(normal.subrange(0, shown.len() as int + 1) =~= shown + "+"@);
                }
            },
        }
    }
}

/// A fragment that names one SHA-256 gives it, in lower case, and one that names none gives none.
pub proof fn sha256_is_read_back(url: UrlPartsView, hash: Seq<char>)
    requires
        hash.len() == 64,
        forall|i: int|
            0 <= i < hash.len() ==> ('0' <= #[trigger] hash[i] <= '9' || 'a' <= hash[i] <= 'f'),
    ensures
        url.fragment == Some("sha256="@ + hash) ==> (sha256_of(url) matches Ok(found) && found
            == Some(hash)),
        url.fragment is None ==> (sha256_of(url) matches Ok(found) && found is None),
{
    let field = "sha256="@ + hash;
    reveal_strlit("sha256=");
    reveal_strlit("sha256");
    assert forall|i: int| 0 <= i < field.len() implies #[trigger] field[i] != '&' by {
        if i >= 7 {
            assert(field[i] == hash[i - 7]);
        }
    }
    split_of_one_piece(field, '&');
    first_separator_splits(field, '=');
    assert(field[6] == '=');
    assert(field.contains('='));
    let halves = split_first(field, '=')->0;
    assert(halves.0.len() == 6) by {
        if halves.0.len() < 6 {
            assert(field[halves.0.len() as int] == '=');
        } else if halves.0.len() > 6 {
            assert(halves.0[6] == '=');
            assert(halves.0.contains('='));
        }
    }
    assert(halves.0 =~= "sha256"@) by {
        assert(field.take(6) =~= "sha256"@);
        assert(field.take(6) =~= halves.0);
    }
    assert(halves.1 =~= hash) by {
        assert(field.skip(7) =~= hash);
        assert(field.skip(7) =~= halves.1);
    }
    let fields = seq![field];
    assert(fields.drop_last() =~= Seq::empty());
    reveal_with_fuel(sha256_values, 2);
    assert(sha256_values(fields) =~= seq![hash]);
    assert(sha256_valid(hash));
    assert(lowercase(hash) =~= hash);
}

/// The name of a wheel is refused where the part behind its version does not begin with a digit.
pub proof fn builds_begin_with_a_digit(
    package: Seq<char>,
    version: Seq<char>,
    tag: Seq<char>,
    python: Seq<char>,
    abi: Seq<char>,
    platform: Seq<char>,
)
    requires
        !version.contains('-'),
        !tag.contains('-'),
        !python.contains('-'),
        !abi.contains('-'),
        !platform.contains('-'),
        tag.len() == 0 || !('0' <= tag[0] <= '9'),
    ensures
        wheel_fields(
            package,
            wheel_name(package, version, Some(tag), python, abi, platform),
        ) is Err,
{
    built_name_is_split(package, version, tag, python, abi, platform);
}

/// Whether tags are written as they are compared: in lower case, of letters, digits and underscores.
pub open spec fn normal_tags(tags: Seq<Seq<char>>) -> bool {
    &&& 0 < tags.len() <= 64
    &&& forall|i: int, k: int|
        0 <= i < tags.len() && 0 <= k < tags[i].len() ==> ('a' <= #[trigger] tags[i][k] <= 'z' || '0'
            <= tags[i][k] <= '9' || tags[i][k] == '_')
    &&& forall|i: int| 0 <= i < tags.len() ==> (#[trigger] tags[i]).len() > 0
}

proof fn expanded_tags_are_normal(value: Seq<char>, kind: Seq<char>, url: Seq<char>)
    ensures
        tags_of(value, kind, url) matches Ok(tags) ==> normal_tags(tags),
{
    if let Ok(tags) = tags_of(value, kind, url) {
        crate::pieces::split_nonempty(value, '.');
        let parts = split_on(value, '.');
        assert(tags.len() == parts.len());
        assert forall|i: int| 0 <= i < tags.len() implies (#[trigger] tags[i]).len() > 0 by {
            assert(tag_valid(tags[i]));
        }
        assert forall|i: int, k: int| 0 <= i < tags.len() && 0 <= k < tags[i].len() implies ('a'
            <= #[trigger] tags[i][k] <= 'z' || '0' <= tags[i][k] <= '9' || tags[i][k] == '_') by {
            assert(tag_valid(tags[i]));
            assert(tags[i] == lowercase(parts[i]));
            assert(tags[i][k] == crate::text::lower(parts[i][k]));
        }
    }
}

proof fn found_hashes_are_whole(url: UrlPartsView)
    ensures
        sha256_of(url) matches Ok(Some(hash)) ==> hash.len() == 64 && forall|i: int|
            0 <= i < hash.len() ==> ('0' <= #[trigger] hash[i] <= '9' || 'a' <= hash[i] <= 'f'),
{
    if let Ok(Some(hash)) = sha256_of(url) {
        let values = sha256_values(split_on(url.fragment->0, '&'));
        assert(hash == lowercase(values[0]));
        assert forall|i: int| 0 <= i < hash.len() implies ('0' <= #[trigger] hash[i] <= '9' || 'a'
            <= hash[i] <= 'f') by {
            assert(hash[i] == crate::text::lower(values[0][i]));
        }
    }
}

/// What a link is read as: a name that is no path, tags as they are compared, and a whole hash.
pub proof fn links_hold_what_they_may_hold(
    package: Seq<char>,
    variant: CudaVariant,
    filename: Seq<char>,
    url: UrlPartsView,
    yanked: bool,
    requires_python: Option<Seq<char>>,
)
    ensures
        wheel_link(package, variant, filename, url, yanked, requires_python) matches Ok(wheel) ==> {
            &&& encode_utf8(filename).len() <= 1024
            &&& encode_utf8(url.text).len() <= 8192
            &&& forall|i: int|
                0 <= i < filename.len() ==> #[trigger] filename[i] != '/' && filename[i] != '\\'
                    && filename[i] != '\0'
            &&& normal_tags(wheel.python_tags)
            &&& normal_tags(wheel.abi_tags)
            &&& normal_tags(wheel.platform_tags)
            &&& wheel.sha256 matches Some(hash) ==> hash.len() == 64 && forall|i: int|
                0 <= i < hash.len() ==> ('0' <= #[trigger] hash[i] <= '9' || 'a' <= hash[i] <= 'f')
        },
{
    if let Ok(wheel) = wheel_link(package, variant, filename, url, yanked, requires_python) {
        let fields = wheel_fields(package, filename)->Ok_0;
        expanded_tags_are_normal(fields.python, "python"@, url.text);
        expanded_tags_are_normal(fields.abi, "ABI"@, url.text);
        expanded_tags_are_normal(fields.platform, "platform"@, url.text);
        found_hashes_are_whole(url);
        assert forall|i: int| 0 <= i < filename.len() implies #[trigger] filename[i] != '/'
            && filename[i] != '\\' && filename[i] != '\0' by {
            assert(!crate::links::has_separator(filename));
        }
    }
}

} // verus!
