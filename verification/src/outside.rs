//! The calls into other crates, each behind a contract that is taken on trust.

use crate::links::{raw_text, RawText};
use crate::numbers::decimals;
use crate::order::{flip, Order};
use crate::pieces::{join, occurs};
use crate::text::outcome;
use html5ever::tendril::StrTendril;
use html5ever::tokenizer::states::RawKind;
use html5ever::tokenizer::{
    BufferQueue, Tag, TagKind, Token, TokenSink, TokenSinkResult, Tokenizer, TokenizerOpts,
};
use std::borrow::Cow;
use std::cell::RefCell;
use std::cmp::Ordering;
use std::str::FromStr;
use std::time::Duration;
use vstd::prelude::*;
use vstd::utf8::{decode_utf8, encode_utf8, valid_utf8};

verus! {

// ---------------------------------------------------------------------------
// PEP 440 versions

/// The normalized form that `pep440_rs` gives the version `text`; `None` where it does not
/// accept `text` as a version.
pub uninterp spec fn pep440_text(text: Seq<char>) -> Option<Seq<char>>;

/// Whether `pep440_rs` calls the version `text` an alpha, beta, release candidate or
/// development release; `None` where `text` is no version.
pub uninterp spec fn pep440_prerelease(text: Seq<char>) -> Option<bool>;

/// How `pep440_rs` orders the versions `left` and `right`; `None` where either is no version.
pub uninterp spec fn pep440_order(left: Seq<char>, right: Seq<char>) -> Option<Order>;

/// The message with which `pep440_rs` rejects the version specifiers `text`; `None` where it
/// accepts them.
pub uninterp spec fn pep440_specifier_error(text: Seq<char>) -> Option<Seq<char>>;

/// Whether `pep440_rs` finds `version` within `specifiers`; `None` where either does not
/// parse.
pub uninterp spec fn pep440_contains(specifiers: Seq<char>, version: Seq<char>) -> Option<bool>;

/// Whether `text` is a PEP 440 version.
pub open spec fn is_pep440(text: Seq<char>) -> bool {
    pep440_text(text) is Some
}

/// Calls `pep440_rs::Version::from_str` and displays what it returns. The result is a
/// function of the text alone, and is named.
#[verifier::external_body]
pub(crate) fn normalize_version(text: &str) -> (normalized: Option<String>)
    ensures
        normalized.deep_view() == pep440_text(text@),
{
    pep440_rs::Version::from_str(text).ok().map(|version| version.to_string())
}

/// Calls `pep440_rs::Version::any_prerelease` on the version `text`. The result is named; it
/// is there exactly where the text parses.
#[verifier::external_body]
pub(crate) fn version_is_prerelease(text: &str) -> (answer: Option<bool>)
    ensures
        answer == pep440_prerelease(text@),
        answer is Some <==> is_pep440(text@),
{
    pep440_rs::Version::from_str(text).ok().map(|version| version.any_prerelease())
}

/// Whether a version that compares with `left` and `right` as told can do so where these two
/// compare as `known`: alike where they are equal, and below the greater where it is not above
/// the smaller.
pub open spec fn order_transfers(
    known: Order,
    to_left: Option<Order>,
    to_right: Option<Order>,
) -> bool {
    &&& to_left is Some && to_right is Some
    &&& known == Order::Equal ==> to_left == to_right
    &&& known == Order::Less && to_left != Some(Order::Greater) ==> to_right == Some(Order::Less)
    &&& known == Order::Greater && to_right != Some(Order::Greater) ==> to_left == Some(Order::Less)
}

/// Calls `pep440_rs::Version`'s `Ord::cmp` on two versions; its `==` is that order being
/// `Equal`. The result is named; it is there exactly where both texts parse, it is `Equal`
/// for a version and itself, exchanging the versions reverses it, and it is transitive: it
/// transfers how any third version compares with one of the two to the other.
#[verifier::external_body]
pub(crate) fn order_versions(left: &str, right: &str) -> (order: Option<Order>)
    ensures
        order == pep440_order(left@, right@),
        order is Some <==> (is_pep440(left@) && is_pep440(right@)),
        left@ == right@ ==> (order is None || order == Some(Order::Equal)),
        order matches Some(known) ==> pep440_order(right@, left@) == Some(flip(known)),
        order matches Some(known) ==> forall|third: Seq<char>| #[trigger]
            is_pep440(third) ==> order_transfers(
                known,
                pep440_order(third, left@),
                pep440_order(third, right@),
            ),
{
    let left = pep440_rs::Version::from_str(left).ok()?;
    let right = pep440_rs::Version::from_str(right).ok()?;
    Some(
        match left.cmp(&right) {
            Ordering::Less => Order::Less,
            Ordering::Equal => Order::Equal,
            Ordering::Greater => Order::Greater,
        },
    )
}

/// Calls `pep440_rs::VersionSpecifiers::from_str` and displays the error it returns, if any.
/// The result is named.
#[verifier::external_body]
pub(crate) fn specifier_error(text: &str) -> (message: Option<String>)
    ensures
        message.deep_view() == pep440_specifier_error(text@),
{
    pep440_rs::VersionSpecifiers::from_str(text).err().map(|error| error.to_string())
}

/// Calls `pep440_rs::VersionSpecifiers::contains` on a version. The result is named; it is
/// there exactly where both texts parse.
#[verifier::external_body]
pub(crate) fn specifiers_contain(specifiers: &str, version: &str) -> (answer: Option<bool>)
    ensures
        answer == pep440_contains(specifiers@, version@),
        answer is Some <==> (pep440_specifier_error(specifiers@) is None && is_pep440(version@)),
{
    let specifiers = pep440_rs::VersionSpecifiers::from_str(specifiers).ok()?;
    let version = pep440_rs::Version::from_str(version).ok()?;
    Some(specifiers.contains(&version))
}

/// The message with which `pep440_rs` rejects the version `text`; `None` where it accepts it.
pub uninterp spec fn pep440_error(text: Seq<char>) -> Option<Seq<char>>;

/// Calls `pep440_rs::Version::from_str` and displays the error it returns, if any. The result
/// is named; it is there exactly where the text is no version.
#[verifier::external_body]
pub(crate) fn version_error_message(text: &str) -> (message: Option<String>)
    ensures
        message.deep_view() == pep440_error(text@),
        message is None <==> is_pep440(text@),
{
    pep440_rs::Version::from_str(text).err().map(|error| error.to_string())
}

// ---------------------------------------------------------------------------
// URLs

/// The parts of a URL that the `url` crate tells apart.
#[derive(Debug, PartialEq, Eq)]
pub struct UrlParts {
    /// The whole URL in normal form.
    pub text: String,
    /// The scheme.
    pub scheme: String,
    /// The user name; empty where there is none.
    pub username: String,
    /// The password.
    pub password: Option<String>,
    /// The host.
    pub host: Option<String>,
    /// The port, unless it is the default of the scheme.
    pub port: Option<u16>,
    /// The segments of the path.
    pub segments: Option<Vec<String>>,
    /// The query.
    pub query: Option<String>,
    /// The fragment.
    pub fragment: Option<String>,
}

/// The model of [`UrlParts`].
#[verifier::ext_equal]
pub struct UrlPartsView {
    pub text: Seq<char>,
    pub scheme: Seq<char>,
    pub username: Seq<char>,
    pub password: Option<Seq<char>>,
    pub host: Option<Seq<char>>,
    pub port: Option<u16>,
    pub segments: Option<Seq<Seq<char>>>,
    pub query: Option<Seq<char>>,
    pub fragment: Option<Seq<char>>,
}

impl DeepView for UrlParts {
    type V = UrlPartsView;

    open spec fn deep_view(&self) -> UrlPartsView {
        UrlPartsView {
            text: self.text@,
            scheme: self.scheme@,
            username: self.username@,
            password: self.password.deep_view(),
            host: self.host.deep_view(),
            port: self.port,
            segments: self.segments.deep_view(),
            query: self.query.deep_view(),
            fragment: self.fragment.deep_view(),
        }
    }
}

/// What the `url` crate makes of `text`: its parts, or the message of the error.
pub uninterp spec fn url_parts(text: Seq<char>) -> Result<UrlPartsView, Seq<char>>;

/// The URL that `reference` stands for on a page at `base`, in normal form, or the message of
/// the error.
pub uninterp spec fn url_joined(base: Seq<char>, reference: Seq<char>) -> Result<
    Seq<char>,
    Seq<char>,
>;

/// The value of a hexadecimal digit, given by its ASCII code.
pub open spec fn hex_digit(byte: u8) -> Option<int> {
    if 0x30 <= byte <= 0x39 {
        Some(byte - 0x30)
    } else if 0x61 <= byte <= 0x66 {
        Some(byte - 0x61 + 10)
    } else if 0x41 <= byte <= 0x46 {
        Some(byte - 0x41 + 10)
    } else {
        None
    }
}

/// The bytes that percent-encoded bytes stand for: a percent sign and two hexadecimal digits stand
/// for one byte, and any other byte for itself.
pub open spec fn percent_bytes(bytes: Seq<u8>) -> Seq<u8>
    decreases bytes.len(),
{
    if bytes.len() == 0 {
        Seq::empty()
    } else if bytes.len() >= 3 && bytes[0] == 0x25 && hex_digit(bytes[1]) is Some && hex_digit(
        bytes[2],
    ) is Some {
        seq![(hex_digit(bytes[1])->0 * 16 + hex_digit(bytes[2])->0) as u8] + percent_bytes(
            bytes.skip(3),
        )
    } else {
        seq![bytes[0]] + percent_bytes(bytes.skip(1))
    }
}

/// Why the bytes that `text` stands for are not UTF-8.
pub uninterp spec fn percent_error(text: Seq<char>) -> Seq<char>;

/// What percent-decoding makes of `text`, or why the bytes are not UTF-8.
pub open spec fn percent_decoded(text: Seq<char>) -> Result<Seq<char>, Seq<char>> {
    let bytes = percent_bytes(encode_utf8(text));
    if valid_utf8(bytes) {
        Ok(decode_utf8(bytes))
    } else {
        Err(percent_error(text))
    }
}

/// Calls `url::Url::parse` and takes the URL apart with its accessors. The result is a
/// function of the text alone, and is named.
#[verifier::external_body]
pub(crate) fn split_url(text: &str) -> (result: Result<UrlParts, String>)
    ensures
        outcome(result) == url_parts(text@),
{
    let url = url::Url::parse(text).map_err(|error| error.to_string())?;
    Ok(UrlParts {
        text: url.as_str().to_owned(),
        scheme: url.scheme().to_owned(),
        username: url.username().to_owned(),
        password: url.password().map(str::to_owned),
        host: url.host_str().map(str::to_owned),
        port: url.port(),
        segments: url.path_segments().map(|parts| parts.map(str::to_owned).collect()),
        query: url.query().map(str::to_owned),
        fragment: url.fragment().map(str::to_owned),
    })
}

/// Calls `url::Url::join` on the URL `base`. The result is a function of the two texts alone,
/// and is named.
#[verifier::external_body]
pub(crate) fn join_url(base: &str, reference: &str) -> (result: Result<String, String>)
    ensures
        outcome(result) == url_joined(base@, reference@),
{
    let base = url::Url::parse(base).map_err(|error| error.to_string())?;
    let url = base.join(reference).map_err(|error| error.to_string())?;
    Ok(url.to_string())
}

/// Calls `percent_encoding::percent_decode_str` and its `decode_utf8`: the bytes that the UTF-8
/// bytes of the text stand for, where these are UTF-8. The message where they are not is named.
#[verifier::external_body]
pub(crate) fn decode_percent(text: &str) -> (result: Result<String, String>)
    ensures
        outcome(result) == percent_decoded(text@),
        result matches Err(message) ==> message@ == percent_error(text@),
{
    let decoded = percent_encoding::percent_decode_str(text).decode_utf8();
    decoded.map(Cow::into_owned).map_err(|error| error.to_string())
}

/// `text` as the standard library's `Debug` shows it, between double quotes.
pub uninterp spec fn debug_text(text: Seq<char>) -> Seq<char>;

/// Formats a text with `<str as std::fmt::Debug>`. The result is named.
#[verifier::external_body]
pub(crate) fn show_debug(text: &str) -> (shown: String)
    ensures
        shown@ == debug_text(text@),
{
    format!("{text:?}")
}

// ---------------------------------------------------------------------------
// Shell quoting

/// The characters that mean nothing special to a POSIX shell.
pub open spec fn shell_plain(character: char) -> bool {
    ||| 'a' <= character <= 'z'
    ||| 'A' <= character <= 'Z'
    ||| '0' <= character <= '9'
    ||| character == '-'
    ||| character == '_'
    ||| character == '='
    ||| character == '/'
    ||| character == ','
    ||| character == '.'
    ||| character == '+'
}

/// The characters of `text` as they stand between single quotes: a quote or an exclamation
/// mark leaves the quotes for as long as it lasts.
pub open spec fn shell_quoted_body(text: Seq<char>) -> Seq<char>
    decreases text.len(),
{
    if text.len() == 0 {
        Seq::empty()
    } else if text.last() == '\'' || text.last() == '!' {
        shell_quoted_body(text.drop_last()) + seq!['\'', '\\', text.last(), '\'']
    } else {
        shell_quoted_body(text.drop_last()).push(text.last())
    }
}

/// `text` as one word of a POSIX shell command.
pub open spec fn shell_word(text: Seq<char>) -> Seq<char> {
    if text.len() > 0 && forall|i: int| 0 <= i < text.len() ==> shell_plain(#[trigger] text[i]) {
        text
    } else {
        seq!['\''] + shell_quoted_body(text) + seq!['\'']
    }
}

/// Calls `shell_escape::unix::escape`, which leaves a text of plain characters as it is and
/// puts any other between single quotes, with each quote and exclamation mark escaped outside
/// of them.
#[verifier::external_body]
pub(crate) fn escape_word(text: &str) -> (word: String)
    ensures
        word@ == shell_word(text@),
{
    shell_escape::unix::escape(Cow::Borrowed(text)).into_owned()
}

// ---------------------------------------------------------------------------
// Bytes and text

/// What `bytes` read as when every invalid sequence is replaced.
pub uninterp spec fn lossy_text(bytes: Seq<u8>) -> Seq<char>;

/// Calls `String::from_utf8_lossy`. The result is named; valid UTF-8 reads as itself.
#[verifier::external_body]
pub(crate) fn decode_lossy(bytes: &[u8]) -> (text: String)
    ensures
        text@ == lossy_text(bytes@),
        valid_utf8(bytes@) ==> text@ == decode_utf8(bytes@),
{
    String::from_utf8_lossy(bytes).into_owned()
}

/// Calls `std::str::from_utf8`, which accepts exactly valid UTF-8.
#[verifier::external_body]
pub(crate) fn decode_strict(bytes: &[u8]) -> (text: Option<String>)
    ensures
        text is Some <==> valid_utf8(bytes@),
        text matches Some(read) ==> read@ == decode_utf8(bytes@),
{
    std::str::from_utf8(bytes).ok().map(str::to_owned)
}

/// The message with which the standard library rejects bytes that are not UTF-8.
pub uninterp spec fn utf8_error(bytes: Seq<u8>) -> Seq<char>;

/// Calls `String::from_utf8`, which accepts exactly valid UTF-8, and displays the error that it
/// returns otherwise. The message is a function of the bytes alone, and is named.
#[verifier::external_body]
pub(crate) fn decode_owned(bytes: Vec<u8>) -> (result: Result<String, String>)
    ensures
        outcome(result) == (if valid_utf8(bytes@) {
            Ok::<Seq<char>, Seq<char>>(decode_utf8(bytes@))
        } else {
            Err(utf8_error(bytes@))
        }),
{
    String::from_utf8(bytes).map_err(|error| error.to_string())
}

/// A length of time as the standard library's `Debug` shows it.
pub uninterp spec fn span_text(seconds: u64, nanos: u32) -> Seq<char>;

/// Formats a length of time with `<std::time::Duration as std::fmt::Debug>`. The result is
/// named.
#[verifier::external_body]
pub(crate) fn show_span(seconds: u64, nanos: u32) -> (shown: String)
    ensures
        shown@ == span_text(seconds, nanos),
{
    let span = Duration::from_secs(seconds).saturating_add(Duration::from_nanos(u64::from(nanos)));
    format!("{span:?}")
}

// ---------------------------------------------------------------------------
// Patterns

/// What the first group of the regular expression `pattern` holds at its first match in `text`;
/// `None` where there is no match, or none of that group.
pub uninterp spec fn pattern_capture(pattern: Seq<char>, text: Seq<char>) -> Option<Seq<char>>;

/// What the first group of the regular expression `pattern` holds at each of its matches in
/// `text`, in order.
pub uninterp spec fn pattern_captures(pattern: Seq<char>, text: Seq<char>) -> Seq<
    Option<Seq<char>>,
>;

/// Calls `regex::Regex::captures` and takes the first group. The result is named; it is a part
/// of the text.
#[verifier::external_body]
pub(crate) fn capture_first(pattern: &str, text: &str) -> (found: Option<String>)
    ensures
        found.deep_view() == pattern_capture(pattern@, text@),
        found matches Some(part) ==> occurs(text@, part@),
{
    let expression = regex::Regex::new(pattern).ok()?;
    let captures = expression.captures(text)?;
    captures.get(1).map(|found| found.as_str().to_owned())
}

/// Calls `regex::Regex::captures_iter` and takes the first group of each match. The result is
/// named; it is made of parts of the text.
#[verifier::external_body]
pub(crate) fn capture_each(pattern: &str, text: &str) -> (found: Vec<Option<String>>)
    ensures
        found.deep_view() == pattern_captures(pattern@, text@),
        forall|i: int| 0 <= i < found@.len() ==> (#[trigger] found@[i] matches Some(part)
            ==> occurs(text@, part@)),
{
    match regex::Regex::new(pattern) {
        Ok(expression) => expression.captures_iter(text).map(
            |captures| captures.get(1).map(|found| found.as_str().to_owned()),
        ).collect(),
        Err(_) => Vec::new(),
    }
}

// ---------------------------------------------------------------------------
// Tables and documents

/// One record of a comma-separated table.
#[derive(Debug, PartialEq, Eq)]
pub enum TableRecord {
    /// The fields of a record.
    Fields(Vec<String>),
    /// Why the record cannot be read.
    Invalid(String),
}

/// The model of [`TableRecord`].
pub enum TableRecordView {
    Fields(Seq<Seq<char>>),
    Invalid(Seq<char>),
}

impl DeepView for TableRecord {
    type V = TableRecordView;

    open spec fn deep_view(&self) -> TableRecordView {
        match self {
            TableRecord::Fields(fields) => TableRecordView::Fields(fields.deep_view()),
            TableRecord::Invalid(message) => TableRecordView::Invalid(message@),
        }
    }
}

/// What the `csv` crate reads from `bytes`: records without a header, each as long as the first,
/// with the white space around fields removed.
pub uninterp spec fn table_records(bytes: Seq<u8>) -> Seq<TableRecordView>;

/// Calls `csv::Reader::records` on the bytes. The result is named.
#[verifier::external_body]
pub(crate) fn read_table(bytes: &[u8]) -> (records: Vec<TableRecord>)
    ensures
        records.deep_view() == table_records(bytes@),
{
    let mut builder = csv::ReaderBuilder::new();
    builder.has_headers(false).trim(csv::Trim::All).flexible(false);
    let mut reader = builder.from_reader(bytes);
    reader.records().map(
        |record| match record {
            Ok(fields) => TableRecord::Fields(fields.iter().map(str::to_owned).collect()),
            Err(error) => TableRecord::Invalid(error.to_string()),
        },
    ).collect()
}

/// A value within a JSON document.
#[derive(Debug, PartialEq, Eq)]
pub enum JsonValue {
    /// A string.
    Text(String),
    /// A number, as it is displayed.
    Number(String),
    /// Anything else.
    Other,
}

/// The model of [`JsonValue`].
pub enum JsonValueView {
    Text(Seq<char>),
    Number(Seq<char>),
    Other,
}

impl DeepView for JsonValue {
    type V = JsonValueView;

    open spec fn deep_view(&self) -> JsonValueView {
        match self {
            JsonValue::Text(text) => JsonValueView::Text(text@),
            JsonValue::Number(text) => JsonValueView::Number(text@),
            JsonValue::Other => JsonValueView::Other,
        }
    }
}

/// The value to which the JSON Pointer `pointer` leads in the JSON document `text`; `None` where
/// `text` is no JSON document or nothing stands there.
pub uninterp spec fn json_value(text: Seq<char>, pointer: Seq<char>) -> Option<JsonValueView>;

/// Calls `serde_json::from_str` and `serde_json::Value::pointer`. The result is named.
#[verifier::external_body]
pub(crate) fn json_lookup(text: &str, pointer: &str) -> (found: Option<JsonValue>)
    ensures
        found.deep_view() == json_value(text@, pointer@),
{
    let document: serde_json::Value = serde_json::from_str(text).ok()?;
    document.pointer(pointer).map(
        |value| match value {
            serde_json::Value::String(text) => JsonValue::Text(text.clone()),
            serde_json::Value::Number(number) => JsonValue::Number(number.to_string()),
            _ => JsonValue::Other,
        },
    )
}

/// The JSON text of a list of numbers, or of nothing.
pub open spec fn selection_json(numbers: Option<Seq<u32>>) -> Seq<char> {
    match numbers {
        None => "null"@,
        Some(list) => "["@ + join(decimals(list), ","@) + "]"@,
    }
}

/// Calls `serde_json::to_string` on an optional list of numbers, which writes `null` or the
/// numbers in decimal between brackets, and cannot fail.
#[verifier::external_body]
pub(crate) fn encode_selection(numbers: &Option<Vec<u32>>) -> (encoded: Option<String>)
    ensures
        encoded.deep_view() == Some(
            selection_json(
                match numbers {
                    Some(list) => Some(list@),
                    None => None,
                },
            ),
        ),
{
    serde_json::to_string(numbers).ok()
}

// ---------------------------------------------------------------------------
// Width on a terminal

/// How many columns `text` takes on a terminal.
pub uninterp spec fn display_columns(text: Seq<char>) -> usize;

/// How many columns a character takes on a terminal; `None` for a control character.
pub uninterp spec fn character_columns(character: char) -> Option<usize>;

/// Whether `text` is made of printable ASCII characters.
pub open spec fn printable_ascii(text: Seq<char>) -> bool {
    forall|i: int| 0 <= i < text.len() ==> ' ' <= #[trigger] text[i] <= '~'
}

/// Calls `unicode_width::UnicodeWidthStr::width`. The result is named; printable ASCII takes one
/// column for each character.
#[verifier::external_body]
pub(crate) fn text_columns(text: &str) -> (columns: usize)
    ensures
        columns == display_columns(text@),
        printable_ascii(text@) ==> columns == text@.len(),
{
    unicode_width::UnicodeWidthStr::width(text)
}

/// Calls `unicode_width::UnicodeWidthChar::width`. The result is named; a printable ASCII
/// character takes one column.
#[verifier::external_body]
pub(crate) fn char_columns(character: char) -> (columns: Option<usize>)
    ensures
        columns == character_columns(character),
        ' ' <= character <= '~' ==> columns == Some(1usize),
{
    unicode_width::UnicodeWidthChar::width(character)
}

// ---------------------------------------------------------------------------
// HTML

/// Longest text that is tokenized, in bytes. A buffer of `html5ever` grows to 2 GiB and no
/// further, and a text can take up to three times its bytes there: one `NUL` becomes a
/// replacement character of three bytes.
pub const MAX_PAGE_BYTES: usize = 715827882;

/// A token of `html5ever`.
#[verifier::external_type_specification]
#[verifier::external_body]
pub struct ExToken(html5ever::tokenizer::Token);

/// What `html5ever` is told after a token.
#[verifier::external_type_specification]
#[verifier::external_body]
#[verifier::reject_recursive_types(Handle)]
pub struct ExTokenSinkResult<Handle>(html5ever::tokenizer::TokenSinkResult<Handle>);

/// Where `html5ever` puts the tokens of a text: the start tags are kept, in their order.
#[verifier::external_body]
struct TagSink {
    tags: RefCell<Vec<(String, Vec<(String, String)>)>>,
}

impl TokenSink for TagSink {
    type Handle = ();

    /// Takes one token from `html5ever::tokenizer::Tokenizer`. Of a start tag the name and the
    /// attributes are kept, and [`raw_text`] says how the tokenizer goes on inside the element;
    /// after any other token it goes on as before.
    #[verifier::external_body]
    fn process_token(&self, token: Token, _line_number: u64) -> TokenSinkResult<()> {
        let Token::TagToken(Tag { kind: TagKind::StartTag, name, attrs, .. }) = token else {
            return TokenSinkResult::Continue;
        };
        let pairs = attrs.into_iter().map(|pair| (pair.name.local.to_string(), pair.value.into()));
        self.tags.borrow_mut().push((name.to_string(), pairs.collect()));
        match raw_text(name.as_ref()) {
            Some(RawText::Rcdata) => TokenSinkResult::RawData(RawKind::Rcdata),
            Some(RawText::Rawtext) => TokenSinkResult::RawData(RawKind::Rawtext),
            Some(RawText::Script) => TokenSinkResult::RawData(RawKind::ScriptData),
            None => TokenSinkResult::Continue,
        }
    }
}

/// The start tags that `html5ever` finds in `text`, each with its name and with the names and
/// values of its attributes, where the text inside an element is read as
/// [`raw_text`](crate::links::raw_text) says; and whether it read the text to the end.
pub uninterp spec fn page_tags(text: Seq<char>) -> (
    Seq<(Seq<char>, Seq<(Seq<char>, Seq<char>)>)>,
    bool,
);

/// Feeds `text` to `html5ever::tokenizer::Tokenizer`, ends it, and hands back the start tags it
/// found and whether its input is used up. The result is a function of the text alone, and is
/// named; which tags a given text has is left unsaid. A longer text than is admitted can overflow
/// the buffers of the tokenizer, which then panics.
#[verifier::external_body]
pub(crate) fn tokenize(text: &str) -> (page: (Vec<(String, Vec<(String, String)>)>, bool))
    requires
        encode_utf8(text@).len() <= MAX_PAGE_BYTES,
    ensures
        page.deep_view() == page_tags(text@),
{
    let input = BufferQueue::default();
    input.push_back(StrTendril::from_slice(text));
    let sink = TagSink { tags: RefCell::new(Vec::new()) };
    let tokenizer = Tokenizer::new(sink, TokenizerOpts::default());
    let _ = tokenizer.feed(&input);
    tokenizer.end();
    (tokenizer.sink.tags.into_inner(), input.is_empty())
}

} // verus!
