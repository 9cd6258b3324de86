//! Resources addressed by URI: their data, URI schemes and parsing, and the
//! registries that store them, one scheme at a time or routed by scheme.

use vstd::prelude::*;
use vstd::string::StrSliceExecFns;
use crate::error::McpError;
use crate::error::McpErrorView;
use crate::error::McpResult;
use crate::json::JsonValue;
use crate::json::JsonView;
use crate::json::members_view;
use crate::security::SecurityContext;
use crate::text::chars_of;
use crate::text::clone_opt;
use crate::text::find_from;
use crate::text::first_match_from;
use crate::text::has_char;
use crate::text::has_prefix;
use crate::text::index_of_text;
use crate::text::join;
use crate::text::join3;
use crate::text::lemma_index_of_pushed;
use crate::text::lemma_index_of_text;
use crate::text::lemma_part_lacks;
use crate::text::lemma_pieces_lack;
use crate::text::nonempty_pieces;
use crate::text::opt_text;
use crate::text::pairwise_distinct;
use crate::text::split_nonempty;
use crate::text::split_pieces;
use crate::text::split_text;
use crate::text::starts_with;
use crate::text::texts_of;
use crate::text::text_equal;

verus! {

broadcast use vstd::string::group_string_axioms;

/// What a resource holds.
#[derive(Debug)]
pub enum ResourceContent {
    /// Text content.
    Text { text: String },
    /// Binary content, base64 encoded.
    Blob { blob: String, mime_type: String },
}

/// A resource: content addressed by a URI of the form `<scheme>://...`.
#[derive(Debug)]
pub struct Resource {
    pub uri: String,
    pub name: String,
    pub description: Option<String>,
    pub mime_type: Option<String>,
    pub content: ResourceContent,
    pub metadata: Vec<(String, JsonValue)>,
}

/// A family of resources, listed by a URI template with `{placeholder}`
/// segments.
#[derive(Debug)]
pub struct ResourceTemplate {
    pub uri_template: String,
    pub name: String,
    pub description: Option<String>,
    pub mime_type: Option<String>,
    pub metadata: Vec<(String, JsonValue)>,
}

/// A subscription to the changes of a resource.
#[derive(Debug)]
pub struct ResourceSubscription {
    /// URI or URI pattern subscribed to.
    pub uri: String,
    /// Identifier under which the subscription is cancelled.
    pub subscription_id: String,
}

/// How a resource changed.
#[derive(Debug, Clone, Copy, PartialEq, Eq)]
pub enum ResourceChangeType {
    Created,
    Updated,
    Deleted,
}

/// Notice that a resource changed.
#[derive(Debug)]
pub struct ResourceChanged {
    pub uri: String,
    pub change_type: ResourceChangeType,
    /// The new content, where the notice carries it.
    pub content: Option<ResourceContent>,
}

/// The mathematical value of a `ResourceContent`.
pub ghost enum ResourceContentView {
    Text { text: Seq<char> },
    Blob { blob: Seq<char>, mime_type: Seq<char> },
}

/// The mathematical value of a `Resource`.
pub ghost struct ResourceView {
    pub uri: Seq<char>,
    pub name: Seq<char>,
    pub description: Option<Seq<char>>,
    pub mime_type: Option<Seq<char>>,
    pub content: ResourceContentView,
    pub metadata: Seq<(Seq<char>, JsonView)>,
}

/// The mathematical value of a `ResourceTemplate`.
pub ghost struct ResourceTemplateView {
    pub uri_template: Seq<char>,
    pub name: Seq<char>,
    pub description: Option<Seq<char>>,
    pub mime_type: Option<Seq<char>>,
    pub metadata: Seq<(Seq<char>, JsonView)>,
}

impl View for ResourceContent {
    type V = ResourceContentView;

    open spec fn view(&self) -> ResourceContentView {
        match self {
            ResourceContent::Text { text } => ResourceContentView::Text { text: text@ },
            ResourceContent::Blob { blob, mime_type } => ResourceContentView::Blob {
                blob: blob@,
                mime_type: mime_type@,
            },
        }
    }
}

impl View for Resource {
    type V = ResourceView;

    open spec fn view(&self) -> ResourceView {
        ResourceView {
            uri: self.uri@,
            name: self.name@,
            description: opt_text(self.description),
            mime_type: opt_text(self.mime_type),
            content: self.content@,
            metadata: members_view(self.metadata@),
        }
    }
}

impl View for ResourceTemplate {
    type V = ResourceTemplateView;

    open spec fn view(&self) -> ResourceTemplateView {
        ResourceTemplateView {
            uri_template: self.uri_template@,
            name: self.name@,
            description: opt_text(self.description),
            mime_type: opt_text(self.mime_type),
            metadata: members_view(self.metadata@),
        }
    }
}

impl Clone for ResourceContent {
    fn clone(&self) -> (copy: Self)
        ensures
            copy == *self,
    {
        match self {
            ResourceContent::Text { text } => ResourceContent::Text { text: text.clone() },
            ResourceContent::Blob { blob, mime_type } => ResourceContent::Blob {
                blob: blob.clone(),
                mime_type: mime_type.clone(),
            },
        }
    }
}

impl Clone for Resource {
    fn clone(&self) -> (copy: Self)
        ensures
            copy@ == self@,
    {
        Resource {
            uri: self.uri.clone(),
            name: self.name.clone(),
            description: clone_opt(&self.description),
            mime_type: clone_opt(&self.mime_type),
            content: self.content.clone(),
            metadata: crate::json::clone_members(&self.metadata),
        }
    }
}

impl Clone for ResourceTemplate {
    fn clone(&self) -> (copy: Self)
        ensures
            copy@ == self@,
    {
        ResourceTemplate {
            uri_template: self.uri_template.clone(),
            name: self.name.clone(),
            description: clone_opt(&self.description),
            mime_type: clone_opt(&self.mime_type),
            metadata: crate::json::clone_members(&self.metadata),
        }
    }
}

impl Clone for ResourceSubscription {
    fn clone(&self) -> (copy: Self)
        ensures
            copy == *self,
    {
        ResourceSubscription {
            uri: self.uri.clone(),
            subscription_id: self.subscription_id.clone(),
        }
    }
}

impl ResourceChangeType {
    /// The lower-case name of the change.
    pub fn name(&self) -> (out: &'static str)
        ensures
            out@ == change_name(*self),
    {
        match self {
            ResourceChangeType::Created => "created",
            ResourceChangeType::Updated => "updated",
            ResourceChangeType::Deleted => "deleted",
        }
    }
}

/// The lower-case name of a change.
pub open spec fn change_name(change: ResourceChangeType) -> Seq<char> {
    match change {
        ResourceChangeType::Created => "created"@,
        ResourceChangeType::Updated => "updated"@,
        ResourceChangeType::Deleted => "deleted"@,
    }
}

/// A URI scheme and what it serves.
#[derive(Debug)]
pub struct UriSchemeConfig {
    /// The scheme, such as `ratchet`.
    pub scheme: String,
    pub description: String,
    /// The kinds of resource served under the scheme.
    pub supported_types: Vec<String>,
}

/// The components of a parsed URI.
#[derive(Debug)]
pub struct ParsedUri {
    pub scheme: String,
    pub host: Option<String>,
    pub path: String,
    pub query: Option<String>,
    pub fragment: Option<String>,
}

/// The mathematical value of a `ParsedUri`.
pub ghost struct ParsedUriView {
    pub scheme: Seq<char>,
    pub host: Option<Seq<char>>,
    pub path: Seq<char>,
    pub query: Option<Seq<char>>,
    pub fragment: Option<Seq<char>>,
}

impl View for ParsedUri {
    type V = ParsedUriView;

    open spec fn view(&self) -> ParsedUriView {
        ParsedUriView {
            scheme: self.scheme@,
            host: opt_text(self.host),
            path: self.path@,
            query: opt_text(self.query),
            fragment: opt_text(self.fragment),
        }
    }
}

/// The decoded query parameters of a URI: one pair for each name, in the
/// order in which the names first come in the query.
#[derive(Debug)]
pub struct QueryParams {
    pub pairs: Vec<(String, String)>,
}

/// What the `url` crate makes of a URI: its components, or the reason why it
/// is no URL.
pub uninterp spec fn url_parts(uri: Seq<char>) -> Result<ParsedUriView, Seq<char>>;

/// What the `urlencoding` crate decodes a percent-encoded text to; `None`
/// where the decoded bytes are no UTF-8.
pub uninterp spec fn percent_decoded(text: Seq<char>) -> Option<Seq<char>>;

/// The view of a parse outcome.
pub open spec fn parts_view(outcome: Result<ParsedUri, String>) -> Result<
    ParsedUriView,
    Seq<char>,
> {
    match outcome {
        Ok(parsed) => Ok(parsed@),
        Err(reason) => Err(reason@),
    }
}

/// Calls `url::Url::parse` and reads the parsed URL's `scheme`, `host_str`,
/// `path`, `query` and `fragment`; a failure is handed on as the text of the
/// crate's error. The contract names the outcome.
#[verifier::external_body]
fn split_url(uri: &str) -> (outcome: Result<ParsedUri, String>)
    ensures
        parts_view(outcome) == url_parts(uri@),
{
    match url::Url::parse(uri) {
        Ok(u) => Ok(
            ParsedUri {
                scheme: u.scheme().to_string(),
                host: u.host_str().map(|s| s.to_string()),
                path: u.path().to_string(),
                query: u.query().map(|s| s.to_string()),
                fragment: u.fragment().map(|s| s.to_string()),
            },
        ),
        Err(e) => Err(e.to_string()),
    }
}

/// Calls `urlencoding::decode`. The contract names the outcome, and states
/// that a text without `%` decodes to itself.
#[verifier::external_body]
fn percent_decode(text: &str) -> (out: Option<String>)
    ensures
        opt_text(out) == percent_decoded(text@),
        !has_char(text@, '%') ==> opt_text(out) == Some(text@),
{
    match urlencoding::decode(text) {
        Ok(decoded) => Some(decoded.into_owned()),
        Err(_) => None,
    }
}

/// The prefix that every URI of `scheme` begins with: the scheme and `://`.
pub open spec fn scheme_prefix(scheme: Seq<char>) -> Seq<char> {
    scheme + "://"@
}

/// What checking a parse outcome against the expected scheme gives: the
/// components where the URI parsed and has that scheme, and otherwise an
/// invalid-resource error that says why.
pub open spec fn scheme_checked(
    scheme: Seq<char>,
    uri: Seq<char>,
    outcome: Result<ParsedUriView, Seq<char>>,
) -> Result<ParsedUriView, McpErrorView> {
    match outcome {
        Err(reason) => Err(
            McpErrorView::InvalidResource { uri, message: "Invalid URI format: "@ + reason },
        ),
        Ok(parsed) => if parsed.scheme == scheme {
            Ok(parsed)
        } else {
            Err(
                McpErrorView::InvalidResource {
                    uri,
                    message: "Expected scheme '"@ + scheme + "', got '"@ + parsed.scheme + "'"@,
                },
            )
        },
    }
}

/// The view of a checked parse.
pub open spec fn parsed_view(outcome: McpResult<ParsedUri>) -> Result<ParsedUriView, McpErrorView> {
    match outcome {
        Ok(parsed) => Ok(parsed@),
        Err(e) => Err(e@),
    }
}

impl UriSchemeConfig {
    /// A scheme with its description and no supported types yet.
    pub fn new(scheme: &str, description: &str) -> (config: UriSchemeConfig)
        ensures
            config.scheme@ == scheme@,
            config.description@ == description@,
            config.supported_types@.len() == 0,
    {
        UriSchemeConfig {
            scheme: scheme.to_owned(),
            description: description.to_owned(),
            supported_types: Vec::new(),
        }
    }

    /// The same scheme with `types` as its supported types.
    pub fn with_types(self, types: Vec<String>) -> (config: UriSchemeConfig)
        ensures
            config.scheme == self.scheme,
            config.description == self.description,
            config.supported_types == types,
    {
        UriSchemeConfig { scheme: self.scheme, description: self.description, supported_types: types }
    }

    /// Whether `uri` belongs to this scheme: it begins with the scheme and
    /// `://`.
    pub fn matches_uri(&self, uri: &str) -> (yes: bool)
        ensures
            yes == has_prefix(uri@, scheme_prefix(self.scheme@)),
    {
        let prefix = join(self.scheme.as_str(), "://");
        starts_with(uri, prefix.as_str())
    }

    /// Checks a parse outcome against this scheme.
    pub fn check_scheme(&self, uri: &str, outcome: Result<ParsedUri, String>) -> (checked:
        McpResult<ParsedUri>)
        ensures
            parsed_view(checked) == scheme_checked(self.scheme@, uri@, parts_view(outcome)),
    {
        match outcome {
            Err(reason) => Err(
                McpError::InvalidResource {
                    uri: uri.to_owned(),
                    message: join("Invalid URI format: ", reason.as_str()),
                },
            ),
            Ok(parsed) => {
                if text_equal(parsed.scheme.as_str(), self.scheme.as_str()) {
                    Ok(parsed)
                } else {
                    let mut message = join3("Expected scheme '", self.scheme.as_str(), "', got '");
                    message.append(parsed.scheme.as_str());
                    message.append("'");
                    Err(McpError::InvalidResource { uri: uri.to_owned(), message })
                }
            },
        }
    }

    /// Parses `uri` and checks that it has this scheme.
    pub fn parse_uri(&self, uri: &str) -> (parsed: McpResult<ParsedUri>)
        ensures
            parsed_view(parsed) == scheme_checked(self.scheme@, uri@, url_parts(uri@)),
    {
        self.check_scheme(uri, split_url(uri))
    }
}

impl Clone for UriSchemeConfig {
    fn clone(&self) -> (copy: Self)
        ensures
            copy.scheme == self.scheme,
            copy.description == self.description,
            copy.supported_types@ == self.supported_types@,
    {
        let mut types: Vec<String> = Vec::new();
        let mut i: usize = 0;
        while i < self.supported_types.len()
            invariant
                i <= self.supported_types.len(),
                types@ == self.supported_types@.take(i as int),
            decreases self.supported_types.len() - i,
        {
            types.push(self.supported_types[i].clone());
            assert(types@ =~= self.supported_types@.take(i + 1));
            i += 1;
        }
        assert(self.supported_types@.take(i as int) =~= self.supported_types@);
        UriSchemeConfig {
            scheme: self.scheme.clone(),
            description: self.description.clone(),
            supported_types: types,
        }
    }
}

/// The text that a component of a query stands for: what it decodes to, or
/// nothing where it does not decode.
pub open spec fn decoded_or_empty(text: Seq<char>) -> Seq<char> {
    match percent_decoded(text) {
        Some(decoded) => decoded,
        None => Seq::empty(),
    }
}

/// The name and value that one piece of a query is written with: the piece
/// is cut at its first `=`. A piece without `=` stands for nothing.
pub open spec fn written_pair(piece: Seq<char>) -> Option<(Seq<char>, Seq<char>)> {
    match first_match_from(piece, seq!['='], 0) {
        Some(at) => Some((piece.subrange(0, at), piece.subrange(at + 1, piece.len() as int))),
        None => None,
    }
}

/// The name and value that one piece of a query stands for: both sides of
/// its first `=`, decoded.
pub open spec fn query_pair(piece: Seq<char>) -> Option<(Seq<char>, Seq<char>)> {
    match written_pair(piece) {
        Some(pair) => Some((decoded_or_empty(pair.0), decoded_or_empty(pair.1))),
        None => None,
    }
}

/// The names and values that the pieces of a query are written with, in
/// order.
pub open spec fn written_pairs(pieces: Seq<Seq<char>>) -> Seq<(Seq<char>, Seq<char>)>
    decreases pieces.len(),
{
    if pieces.len() == 0 {
        Seq::empty()
    } else {
        match written_pair(pieces.last()) {
            Some(pair) => written_pairs(pieces.drop_last()).push(pair),
            None => written_pairs(pieces.drop_last()),
        }
    }
}

/// The parameters of a query as they are written, undecoded.
pub open spec fn written_query(query: Option<Seq<char>>) -> Seq<(Seq<char>, Seq<char>)> {
    match query {
        Some(q) => written_pairs(split_pieces(q, '&')),
        None => Seq::empty(),
    }
}

/// The query holds no `%`, so nothing in it is percent-encoded.
pub open spec fn unencoded(query: Option<Seq<char>>) -> bool {
    match query {
        Some(q) => !has_char(q, '%'),
        None => true,
    }
}

/// The names and values that the pieces of a query stand for, in order.
pub open spec fn query_pairs(pieces: Seq<Seq<char>>) -> Seq<(Seq<char>, Seq<char>)>
    decreases pieces.len(),
{
    if pieces.len() == 0 {
        Seq::empty()
    } else {
        match query_pair(pieces.last()) {
            Some(pair) => query_pairs(pieces.drop_last()).push(pair),
            None => query_pairs(pieces.drop_last()),
        }
    }
}

/// The parameters of a query: its pieces between `&`, each read as a pair.
pub open spec fn query_of(query: Option<Seq<char>>) -> Seq<(Seq<char>, Seq<char>)> {
    match query {
        Some(q) => query_pairs(split_pieces(q, '&')),
        None => Seq::empty(),
    }
}

/// The characters of each name and value.
pub open spec fn pairs_view(pairs: Seq<(String, String)>) -> Seq<(Seq<char>, Seq<char>)> {
    Seq::new(pairs.len(), |i: int| (pairs[i].0@, pairs[i].1@))
}

/// The value of the last pair named `key`, if there is one.
pub open spec fn last_value(pairs: Seq<(Seq<char>, Seq<char>)>, key: Seq<char>) -> Option<
    Seq<char>,
>
    decreases pairs.len(),
{
    if pairs.len() == 0 {
        None
    } else if pairs.last().0 == key {
        Some(pairs.last().1)
    } else {
        last_value(pairs.drop_last(), key)
    }
}

/// The names of the pairs.
pub open spec fn pair_names(pairs: Seq<(Seq<char>, Seq<char>)>) -> Seq<Seq<char>> {
    Seq::new(pairs.len(), |i: int| pairs[i].0)
}

/// The pairs after `pair` was put among them: in the place of the pair of
/// its name, or at the end where there was none.
pub open spec fn pair_put(pairs: Seq<(Seq<char>, Seq<char>)>, pair: (Seq<char>, Seq<char>)) -> Seq<
    (Seq<char>, Seq<char>),
> {
    match index_of_text(pair_names(pairs), pair.0) {
        Some(i) => pairs.update(i, pair),
        None => pairs.push(pair),
    }
}

/// The pairs with one pair for each name: each pair is put among those
/// before it, so that of the pairs of one name the last one stays, in the
/// place of the first.
pub open spec fn merged(pairs: Seq<(Seq<char>, Seq<char>)>) -> Seq<(Seq<char>, Seq<char>)>
    decreases pairs.len(),
{
    if pairs.len() == 0 {
        Seq::empty()
    } else {
        pair_put(merged(pairs.drop_last()), pairs.last())
    }
}

/// Two lists of pairs that agree wherever one of them has the name `key`
/// give `key` the same value.
proof fn lemma_last_value_same(
    a: Seq<(Seq<char>, Seq<char>)>,
    b: Seq<(Seq<char>, Seq<char>)>,
    key: Seq<char>,
)
    requires
        a.len() == b.len(),
        forall|j: int| 0 <= j < a.len() && (a[j].0 == key || b[j].0 == key) ==> a[j] == b[j],
    ensures
        last_value(a, key) == last_value(b, key),
    decreases a.len(),
{
    if a.len() > 0 {
        let last = a.len() - 1;
        if a[last].0 == key || b[last].0 == key {
            assert(a[last] == b[last]);
        }
        lemma_last_value_same(a.drop_last(), b.drop_last(), key);
    }
}

/// Where a pair has the name `key` and no pair after it does, `key` has
/// the value of that pair.
proof fn lemma_last_value_at(pairs: Seq<(Seq<char>, Seq<char>)>, i: int, key: Seq<char>)
    requires
        0 <= i < pairs.len(),
        pairs[i].0 == key,
        forall|j: int| i < j < pairs.len() ==> pairs[j].0 != key,
    ensures
        last_value(pairs, key) == Some(pairs[i].1),
    decreases pairs.len(),
{
    if i < pairs.len() - 1 {
        let rest = pairs.drop_last();
        assert(rest[i] == pairs[i]);
        lemma_last_value_at(rest, i, key);
    }
}

/// Putting a pair among pairs of distinct names keeps the names distinct
/// and gives the name of the pair its value; every other name keeps its
/// value.
proof fn lemma_pair_put(
    pairs: Seq<(Seq<char>, Seq<char>)>,
    pair: (Seq<char>, Seq<char>),
    key: Seq<char>,
)
    requires
        pairwise_distinct(pair_names(pairs)),
    ensures
        pairwise_distinct(pair_names(pair_put(pairs, pair))),
        last_value(pair_put(pairs, pair), key) == if key == pair.0 {
            Some(pair.1)
        } else {
            last_value(pairs, key)
        },
{
    let names = pair_names(pairs);
    let after = pair_put(pairs, pair);
    lemma_index_of_text(names, pair.0);
    match index_of_text(names, pair.0) {
        Some(i) => {
            assert(pair_names(after) =~= names);
            if key == pair.0 {
                assert forall|j: int| i < j < after.len() implies after[j].0 != key by {
                    assert(names[j] == pairs[j].0);
                    assert(names[i] != names[j]);
                }
                lemma_last_value_at(after, i, key);
            } else {
                assert(names[i] == pairs[i].0);
                lemma_last_value_same(after, pairs, key);
            }
        },
        None => {
            assert(pair_names(after) =~= names.push(pair.0));
            assert(after.drop_last() =~= pairs);
        },
    }
}

/// Merged pairs have distinct names.
pub proof fn lemma_merged_distinct(pairs: Seq<(Seq<char>, Seq<char>)>)
    ensures
        pairwise_distinct(pair_names(merged(pairs))),
    decreases pairs.len(),
{
    if pairs.len() > 0 {
        lemma_merged_distinct(pairs.drop_last());
        lemma_pair_put(merged(pairs.drop_last()), pairs.last(), pairs.last().0);
    }
}

/// The last wins: among merged pairs a name has the value of the last pair
/// of that name.
pub proof fn lemma_merged_last_wins(pairs: Seq<(Seq<char>, Seq<char>)>, key: Seq<char>)
    ensures
        last_value(merged(pairs), key) == last_value(pairs, key),
    decreases pairs.len(),
{
    if pairs.len() > 0 {
        lemma_merged_distinct(pairs.drop_last());
        lemma_merged_last_wins(pairs.drop_last(), key);
        lemma_pair_put(merged(pairs.drop_last()), pairs.last(), key);
    }
}

impl QueryParams {
    /// The value of `key`; where the query names it more than once, the last
    /// one.
    pub fn get(&self, key: &str) -> (value: Option<&String>)
        ensures
            match value {
                Some(v) => last_value(pairs_view(self.pairs@), key@) == Some(v@),
                None => last_value(pairs_view(self.pairs@), key@) is None,
            },
    {
        let ghost all = pairs_view(self.pairs@);
        let mut i: usize = self.pairs.len();
        assert(all.take(i as int) =~= all);
        while i > 0
            invariant
                i <= self.pairs.len(),
                all == pairs_view(self.pairs@),
                last_value(all, key@) == last_value(all.take(i as int), key@),
            decreases i,
        {
            i -= 1;
            proof {
                assert(all.take(i + 1).drop_last() =~= all.take(i as int));
                assert(all.take(i + 1).last() == all[i as int]);
            }
            if text_equal(self.pairs[i].0.as_str(), key) {
                return Some(&self.pairs[i].1);
            }
        }
        None
    }

    /// Position of the pair named `name`.
    fn position(pairs: &Vec<(String, String)>, name: &str) -> (found: Option<usize>)
        ensures
            match found {
                Some(i) => i < pairs.len() && index_of_text(
                    pair_names(pairs_view(pairs@)),
                    name@,
                ) == Some(i as int),
                None => index_of_text(pair_names(pairs_view(pairs@)), name@) is None,
            },
    {
        let ghost names = pair_names(pairs_view(pairs@));
        let mut i: usize = 0;
        while i < pairs.len()
            invariant
                i <= pairs.len(),
                names == pair_names(pairs_view(pairs@)),
                forall|j: int| 0 <= j < i ==> names[j] != name@,
            decreases pairs.len() - i,
        {
            assert(names[i as int] == pairs@[i as int].0@);
            if text_equal(pairs[i].0.as_str(), name) {
                proof {
                    lemma_index_of_text(names, name@);
                }
                return Some(i);
            }
            i += 1;
        }
        proof {
            lemma_index_of_text(names, name@);
        }
        None
    }

    /// The number of pairs, which is the number of names.
    pub fn len(&self) -> (n: usize)
        ensures
            n == self.pairs@.len(),
    {
        self.pairs.len()
    }
}

/// The decoded text of a query component.
fn decode_component(text: &str) -> (out: String)
    ensures
        out@ == decoded_or_empty(text@),
        !has_char(text@, '%') ==> out@ == text@,
{
    match percent_decode(text) {
        Some(decoded) => decoded,
        None => String::new(),
    }
}

impl ParsedUri {
    /// The segments of the path: its pieces between `/`, without the empty
    /// ones.
    pub fn path_segments(&self) -> (segments: Vec<&str>)
        ensures
            texts_of(segments@) == nonempty_pieces(split_pieces(self.path@, '/')),
    {
        split_nonempty(self.path.as_str(), '/')
    }

    /// The parameters of the query, decoded, one pair for each name: where
    /// the query gives a name more than once, the last value stays. Where
    /// the query holds no `%`, names and values are as the query writes
    /// them.
    pub fn query_params(&self) -> (params: QueryParams)
        ensures
            pairs_view(params.pairs@) == merged(query_of(opt_text(self.query))),
            pairwise_distinct(pair_names(pairs_view(params.pairs@))),
            unencoded(opt_text(self.query)) ==> pairs_view(params.pairs@) == merged(
                written_query(opt_text(self.query)),
            ),
    {
        let mut pairs: Vec<(String, String)> = Vec::new();
        match &self.query {
            None => {
                assert(pairs_view(pairs@) =~= Seq::empty());
            },
            Some(query) => {
                let pieces = split_text(query.as_str(), '&');
                let ghost all = split_pieces(query@, '&');
                let ghost plain = !has_char(query@, '%');
                let mut equals: Vec<char> = Vec::new();
                equals.push('=');
                assert(equals@ =~= seq!['=']);
                let mut i: usize = 0;
                let ghost mut read: Seq<(Seq<char>, Seq<char>)> = Seq::empty();
                proof {
                    assert(all.take(0) =~= Seq::empty());
                    assert(pairs_view(pairs@) =~= Seq::empty());
                    if plain {
                        lemma_pieces_lack(query@, '&', '%');
                    }
                }
                while i < pieces.len()
                    invariant
                        i <= pieces.len(),
                        texts_of(pieces@) == all,
                        equals@ == seq!['='],
                        read == query_pairs(all.take(i as int)),
                        pairs_view(pairs@) == merged(read),
                        plain ==> forall|k: int|
                            0 <= k < all.len() ==> !has_char(#[trigger] all[k], '%'),
                        plain ==> read == written_pairs(all.take(i as int)),
                    decreases pieces.len() - i,
                {
                    let piece: &str = pieces[i];
                    proof {
                        assert(all.take(i + 1).drop_last() =~= all.take(i as int));
                        assert(all.take(i + 1).last() == piece@);
                        assert(all[i as int] == piece@);
                    }
                    let chars = chars_of(piece);
                    match find_from(&chars, &equals, 0) {
                        Some(at) => {
                            proof {
                                crate::text::lemma_first_match(piece@, equals@, 0);
                                assert(equals@.len() == 1);
                                assert(crate::text::matches_at(piece@, equals@, at as int));
                                assert(at < chars.len());
                            }
                            let after: usize = at + 1;
                            let left = piece.substring_char(0, at);
                            let right = piece.substring_char(after, chars.len());
                            proof {
                                if plain {
                                    lemma_part_lacks(piece@, 0, at as int, '%');
                                    lemma_part_lacks(piece@, after as int, chars.len() as int, '%');
                                }
                            }
                            let name = decode_component(left);
                            let value = decode_component(right);
                            let ghost before = pairs_view(pairs@);
                            let ghost pair = (name@, value@);
                            match QueryParams::position(&pairs, name.as_str()) {
                                Some(at) => {
                                    pairs.set(at, (name, value));
                                    assert(pairs_view(pairs@) =~= before.update(at as int, pair));
                                },
                                None => {
                                    pairs.push((name, value));
                                    assert(pairs_view(pairs@) =~= before.push(pair));
                                },
                            }
                            proof {
                                assert(read.push(pair).drop_last() =~= read);
                                read = read.push(pair);
                            }
                        },
                        None => {},
                    }
                    i += 1;
                }
                assert(all.take(i as int) =~= all);
            },
        }
        proof {
            lemma_merged_distinct(query_of(opt_text(self.query)));
        }
        QueryParams { pairs }
    }
}

/// The view of a lookup.
pub open spec fn resource_view(found: McpResult<Resource>) -> Result<ResourceView, McpErrorView> {
    match found {
        Ok(resource) => Ok(resource@),
        Err(e) => Err(e@),
    }
}

/// The view of a listing of templates.
pub open spec fn offer_view(listed: McpResult<Vec<ResourceTemplate>>) -> Result<
    Seq<ResourceTemplateView>,
    McpErrorView,
> {
    match listed {
        Ok(templates) => Ok(templates_view(templates@)),
        Err(e) => Err(e@),
    }
}

/// The view of an answer of yes or no.
pub open spec fn flag_view(answer: McpResult<bool>) -> Result<bool, McpErrorView> {
    match answer {
        Ok(yes) => Ok(yes),
        Err(e) => Err(e@),
    }
}

/// A store of the resources of one URI scheme.
///
/// A registry is read while requests are served: what it answers for a URI,
/// and the templates that it offers, are functions of the registry, the URI
/// and the context, named `lookup`, `holds` and `offer`. So is whether it
/// accepts a subscription (`admits`) or the cancellation of one (`cancels`);
/// the identifier of a subscription is for the registry to choose.
pub trait ResourceRegistry {
    /// The scheme that the registry serves.
    spec fn scheme(&self) -> Seq<char>;

    /// What the registry answers when asked for `uri`.
    spec fn lookup(&self, uri: Seq<char>, context: &SecurityContext) -> Result<
        ResourceView,
        McpErrorView,
    >;

    /// Whether the registry serves `uri`: unless a registry says otherwise,
    /// the URI begins with the scheme of the registry and `://`.
    open spec fn serves(&self, uri: Seq<char>) -> bool {
        has_prefix(uri, scheme_prefix(self.scheme()))
    }

    /// What the registry answers when asked whether it holds `uri`.
    spec fn holds(&self, uri: Seq<char>, context: &SecurityContext) -> Result<bool, McpErrorView>;

    /// What the registry answers when asked for its templates.
    spec fn offer(&self, context: &SecurityContext) -> Result<
        Seq<ResourceTemplateView>,
        McpErrorView,
    >;

    /// What the registry answers to a subscription to `uri`, but for the
    /// identifier that it hands out: that it accepts, or its error.
    spec fn admits(&self, uri: Seq<char>, context: &SecurityContext) -> Result<(), McpErrorView>;

    /// Whether the registry accepts the cancellation of `subscription_id`.
    spec fn cancels(&self, subscription_id: Seq<char>, context: &SecurityContext) -> bool;

    /// The configuration of the scheme that the registry serves.
    fn uri_scheme(&self) -> (config: &UriSchemeConfig)
        ensures
            config.scheme@ == self.scheme(),
    ;

    /// The templates of the resources on offer.
    fn list_resource_templates(&self, context: &SecurityContext) -> (templates: McpResult<
        Vec<ResourceTemplate>,
    >)
        ensures
            offer_view(templates) == self.offer(context),
    ;

    /// The resource stored under `uri`.
    fn get_resource(&self, uri: &str, context: &SecurityContext) -> (found: McpResult<Resource>)
        ensures
            resource_view(found) == self.lookup(uri@, context),
    ;

    /// Whether a resource is stored under `uri`.
    fn resource_exists(&self, uri: &str, context: &SecurityContext) -> (exists: McpResult<bool>)
        ensures
            flag_view(exists) == self.holds(uri@, context),
    ;

    /// Subscribes to the changes of `uri`. The subscription is to that URI.
    fn subscribe_to_resource(&self, uri: &str, context: &SecurityContext) -> (subscribed:
        McpResult<ResourceSubscription>)
        ensures
            match self.admits(uri@, context) {
                Ok(_) => subscribed matches Ok(subscription) && subscription.uri@ == uri@,
                Err(e) => subscribed matches Err(got) && got@ == e,
            },
    ;

    /// Cancels a subscription.
    fn unsubscribe_from_resource(&self, subscription_id: &str, context: &SecurityContext) -> (done:
        McpResult<()>)
        ensures
            done is Ok <==> self.cancels(subscription_id@, context),
    ;

    /// Whether the registry serves `uri`.
    fn can_handle_uri(&self, uri: &str) -> (yes: bool)
        ensures
            yes == self.serves(uri@),
    ;
}

/// Calls `uuid::Uuid::new_v4` and writes the identifier in its hyphenated
/// form, which has 36 characters. The identifier is random: the contract
/// states its length and nothing else. The call panics where the operating
/// system hands out no random bytes.
#[verifier::external_body]
pub(crate) fn fresh_identifier() -> (id: String)
    ensures
        id@.len() == 36,
{
    uuid::Uuid::new_v4().to_string()
}

/// The views of a sequence of resources.
pub open spec fn resources_view(resources: Seq<Resource>) -> Seq<ResourceView> {
    Seq::new(resources.len(), |i: int| resources[i]@)
}

/// The views of a sequence of templates.
pub open spec fn templates_view(templates: Seq<ResourceTemplate>) -> Seq<ResourceTemplateView> {
    Seq::new(templates.len(), |i: int| templates[i]@)
}

/// A copy of a list of templates.
pub fn clone_templates(templates: &Vec<ResourceTemplate>) -> (copy: Vec<ResourceTemplate>)
    ensures
        templates_view(copy@) == templates_view(templates@),
{
    let mut out: Vec<ResourceTemplate> = Vec::new();
    let mut i: usize = 0;
    while i < templates.len()
        invariant
            i <= templates.len(),
            out.len() == i,
            forall|k: int| 0 <= k < i ==> out@[k]@ == templates@[k]@,
        decreases templates.len() - i,
    {
        out.push(templates[i].clone());
        i += 1;
    }
    assert(templates_view(out@) =~= templates_view(templates@));
    out
}

/// A resource registry held in memory.
pub struct InMemoryResourceRegistry {
    scheme_config: UriSchemeConfig,
    resources: Vec<Resource>,
    templates: Vec<ResourceTemplate>,
}

/// What a store answers for `uri`: the first resource under that URI, or
/// that there is none.
pub open spec fn stored_under(stored: Seq<ResourceView>, uri: Seq<char>) -> Result<
    ResourceView,
    McpErrorView,
> {
    match index_of_text(Seq::new(stored.len(), |i: int| stored[i].uri), uri) {
        Some(i) => Ok(stored[i]),
        None => Err(McpErrorView::ResourceNotFound { uri }),
    }
}

/// The store after `resource` was put into it: in the place of the resource
/// that had its URI, or at the end where there was none.
pub open spec fn stored_with(stored: Seq<ResourceView>, resource: ResourceView) -> Seq<
    ResourceView,
> {
    match index_of_text(Seq::new(stored.len(), |i: int| stored[i].uri), resource.uri) {
        Some(i) => stored.update(i, resource),
        None => stored.push(resource),
    }
}

/// A store answers for the URI of the resource that was put into it last
/// with that resource, and for every other URI as it did before.
pub proof fn lemma_stored_with(stored: Seq<ResourceView>, resource: ResourceView, uri: Seq<char>)
    ensures
        stored_under(stored_with(stored, resource), uri) == if uri == resource.uri {
            Ok::<ResourceView, McpErrorView>(resource)
        } else {
            stored_under(stored, uri)
        },
{
    let keys = Seq::new(stored.len(), |i: int| stored[i].uri);
    let after = stored_with(stored, resource);
    let keys_after = Seq::new(after.len(), |i: int| after[i].uri);
    lemma_index_of_text(keys, resource.uri);
    lemma_index_of_text(keys, uri);
    match index_of_text(keys, resource.uri) {
        Some(i) => {
            assert(keys_after =~= keys);
        },
        None => {
            assert(keys_after =~= keys.push(resource.uri));
            lemma_index_of_pushed(keys, resource.uri, uri);
        },
    }
}

impl InMemoryResourceRegistry {
    /// The resources held, in the order in which their URIs first came.
    pub closed spec fn stored(&self) -> Seq<ResourceView> {
        resources_view(self.resources@)
    }

    /// The templates held, in the order in which they came.
    pub closed spec fn listed(&self) -> Seq<ResourceTemplateView> {
        templates_view(self.templates@)
    }

    /// The scheme configuration that the registry was made with.
    pub closed spec fn config(&self) -> UriSchemeConfig {
        self.scheme_config
    }

    /// No two resources share a URI.
    pub open spec fn wf(&self) -> bool {
        pairwise_distinct(Seq::new(self.stored().len(), |i: int| self.stored()[i].uri))
    }

    /// An empty registry for the given scheme.
    pub fn new(scheme_config: UriSchemeConfig) -> (registry: InMemoryResourceRegistry)
        ensures
            registry.wf(),
            registry.config() == scheme_config,
            registry.stored().len() == 0,
            registry.listed().len() == 0,
    {
        InMemoryResourceRegistry { scheme_config, resources: Vec::new(), templates: Vec::new() }
    }

    /// Position of the resource stored under `uri`.
    fn position(&self, uri: &str) -> (found: Option<usize>)
        ensures
            match found {
                Some(i) => i < self.resources.len() && index_of_text(
                    Seq::new(self.stored().len(), |i: int| self.stored()[i].uri),
                    uri@,
                ) == Some(i as int),
                None => index_of_text(
                    Seq::new(self.stored().len(), |i: int| self.stored()[i].uri),
                    uri@,
                ) is None,
            },
    {
        let ghost keys = Seq::new(self.stored().len(), |i: int| self.stored()[i].uri);
        let mut i: usize = 0;
        while i < self.resources.len()
            invariant
                i <= self.resources.len(),
                keys == Seq::new(self.stored().len(), |i: int| self.stored()[i].uri),
                keys.len() == self.resources.len(),
                forall|j: int| 0 <= j < i ==> keys[j] != uri@,
            decreases self.resources.len() - i,
        {
            assert(keys[i as int] == self.resources@[i as int].uri@);
            if text_equal(self.resources[i].uri.as_str(), uri) {
                proof {
                    lemma_index_of_text(keys, uri@);
                }
                return Some(i);
            }
            i += 1;
        }
        proof {
            lemma_index_of_text(keys, uri@);
        }
        None
    }

    /// Puts `resource` into the registry, in the place of the resource that
    /// had its URI if there was one.
    pub fn add_resource(&mut self, resource: Resource)
        requires
            old(self).wf(),
        ensures
            final(self).wf(),
            final(self).stored() == stored_with(old(self).stored(), resource@),
            final(self).listed() == old(self).listed(),
            final(self).config() == old(self).config(),
    {
        let ghost before = self.stored();
        let ghost keys = Seq::new(before.len(), |i: int| before[i].uri);
        proof {
            lemma_index_of_text(keys, resource.uri@);
        }
        match self.position(resource.uri.as_str()) {
            Some(i) => {
                self.resources.set(i, resource);
                proof {
                    assert(self.stored() =~= before.update(i as int, resource@));
                    let after = Seq::new(self.stored().len(), |k: int| self.stored()[k].uri);
                    assert(after =~= keys);
                }
            },
            None => {
                self.resources.push(resource);
                proof {
                    assert(self.stored() =~= before.push(resource@));
                    let after = Seq::new(self.stored().len(), |k: int| self.stored()[k].uri);
                    assert(after =~= keys.push(resource.uri@));
                }
            },
        }
    }

    /// Adds a template to the list.
    pub fn add_template(&mut self, template: ResourceTemplate)
        ensures
            final(self).listed() == old(self).listed().push(template@),
            final(self).stored() == old(self).stored(),
            final(self).config() == old(self).config(),
    {
        let ghost before = self.listed();
        self.templates.push(template);
        assert(self.listed() =~= before.push(template@));
    }
}

impl ResourceRegistry for InMemoryResourceRegistry {
    open spec fn scheme(&self) -> Seq<char> {
        self.config().scheme@
    }

    open spec fn lookup(&self, uri: Seq<char>, context: &SecurityContext) -> Result<
        ResourceView,
        McpErrorView,
    > {
        stored_under(self.stored(), uri)
    }

    open spec fn holds(&self, uri: Seq<char>, context: &SecurityContext) -> Result<
        bool,
        McpErrorView,
    > {
        Ok(stored_under(self.stored(), uri) is Ok)
    }

    open spec fn offer(&self, context: &SecurityContext) -> Result<
        Seq<ResourceTemplateView>,
        McpErrorView,
    > {
        Ok(self.listed())
    }

    /// Every subscription is accepted.
    open spec fn admits(&self, uri: Seq<char>, context: &SecurityContext) -> Result<
        (),
        McpErrorView,
    > {
        Ok(())
    }

    /// Every cancellation is accepted: the registry keeps no subscriptions.
    open spec fn cancels(&self, subscription_id: Seq<char>, context: &SecurityContext) -> bool {
        true
    }

    fn uri_scheme(&self) -> (config: &UriSchemeConfig)
        ensures
            *config == self.config(),
    {
        &self.scheme_config
    }

    fn list_resource_templates(&self, context: &SecurityContext) -> (templates: McpResult<
        Vec<ResourceTemplate>,
    >) {
        Ok(clone_templates(&self.templates))
    }

    fn get_resource(&self, uri: &str, context: &SecurityContext) -> (found: McpResult<Resource>) {
        match self.position(uri) {
            Some(i) => Ok(self.resources[i].clone()),
            None => Err(McpError::ResourceNotFound { uri: uri.to_owned() }),
        }
    }

    fn resource_exists(&self, uri: &str, context: &SecurityContext) -> (exists: McpResult<bool>) {
        Ok(self.position(uri).is_some())
    }

    fn subscribe_to_resource(&self, uri: &str, context: &SecurityContext) -> (subscribed:
        McpResult<ResourceSubscription>)
        ensures
            subscribed matches Ok(subscription) && subscription.subscription_id@.len() == 36,
    {
        Ok(ResourceSubscription { uri: uri.to_owned(), subscription_id: fresh_identifier() })
    }

    fn unsubscribe_from_resource(&self, subscription_id: &str, context: &SecurityContext) -> (done:
        McpResult<()>) {
        Ok(())
    }

    fn can_handle_uri(&self, uri: &str) -> (yes: bool) {
        self.scheme_config.matches_uri(uri)
    }
}

/// The scheme of a URI: what stands before its first `://`. A URI without
/// `://` has none.
pub open spec fn uri_scheme_of(uri: Seq<char>) -> Option<Seq<char>> {
    match first_match_from(uri, "://"@, 0) {
        Some(at) => Some(uri.subrange(0, at)),
        None => None,
    }
}

/// The schemes of a sequence of registries.
pub open spec fn schemes_of<R: ResourceRegistry>(children: Seq<R>) -> Seq<Seq<char>> {
    Seq::new(children.len(), |i: int| children[i].scheme())
}

/// Where a URI is routed among registries with the given schemes: to the
/// registry of its scheme, or to an invalid-resource error where the URI has
/// no scheme or no registry serves it.
pub open spec fn route(schemes: Seq<Seq<char>>, uri: Seq<char>) -> Result<int, McpErrorView> {
    match uri_scheme_of(uri) {
        None => Err(McpErrorView::InvalidResource { uri, message: "URI missing scheme"@ }),
        Some(scheme) => match index_of_text(schemes, scheme) {
            Some(i) => Ok(i),
            None => Err(
                McpErrorView::InvalidResource {
                    uri,
                    message: "No registry found for scheme '"@ + scheme + "'"@,
                },
            ),
        },
    }
}

/// The templates that the registries offer, one registry after the other;
/// where a registry fails, the error of the first that does.
pub open spec fn gathered<R: ResourceRegistry>(children: Seq<R>, context: &SecurityContext)
    -> Result<Seq<ResourceTemplateView>, McpErrorView>
    decreases children.len(),
{
    if children.len() == 0 {
        Ok(Seq::empty())
    } else {
        match gathered(children.drop_last(), context) {
            Err(e) => Err(e),
            Ok(before) => match children.last().offer(context) {
                Ok(templates) => Ok(before + templates),
                Err(e) => Err(e),
            },
        }
    }
}

/// Where the first `k` registries fail, so do all of them, with the same
/// error.
proof fn lemma_gathered_prefix<R: ResourceRegistry>(
    children: Seq<R>,
    k: int,
    context: &SecurityContext,
)
    requires
        0 <= k <= children.len(),
        gathered(children.take(k), context) is Err,
    ensures
        gathered(children, context) == gathered(children.take(k), context),
    decreases children.len(),
{
    if k < children.len() {
        let rest = children.drop_last();
        assert(rest.take(k) =~= children.take(k));
        lemma_gathered_prefix(rest, k, context);
    } else {
        assert(children.take(k) =~= children);
    }
}

/// The error of a cancellation that no registry accepted.
pub open spec fn unknown_subscription(subscription_id: Seq<char>) -> McpErrorView {
    McpErrorView::InvalidResource {
        uri: "subscription:"@ + subscription_id,
        message: "Subscription not found in any registry"@,
    }
}

/// A registry of registries: it hands each URI to the registry that serves
/// the URI's scheme.
pub struct MultiSchemeResourceRegistry<R: ResourceRegistry> {
    registries: Vec<R>,
    own_scheme: UriSchemeConfig,
}

impl<R: ResourceRegistry> MultiSchemeResourceRegistry<R> {
    /// The registered registries, in the order in which their schemes first
    /// came.
    pub closed spec fn children(&self) -> Seq<R> {
        self.registries@
    }

    /// The scheme that the router answers with when asked for its own: `*`,
    /// which is no scheme of a URI.
    pub closed spec fn own(&self) -> UriSchemeConfig {
        self.own_scheme
    }

    /// No two registered registries serve the same scheme.
    pub open spec fn wf(&self) -> bool {
        pairwise_distinct(schemes_of(self.children()))
    }

    /// A router without registries.
    pub fn new() -> (router: MultiSchemeResourceRegistry<R>)
        ensures
            router.wf(),
            router.children().len() == 0,
            router.own().scheme@ == "*"@,
    {
        MultiSchemeResourceRegistry {
            registries: Vec::new(),
            own_scheme: UriSchemeConfig::new("*", "Routes each URI to the registry of its scheme"),
        }
    }

    /// Position of the registry that serves `scheme`.
    fn position(&self, scheme: &str) -> (found: Option<usize>)
        ensures
            match found {
                Some(i) => i < self.registries.len() && index_of_text(
                    schemes_of(self.children()),
                    scheme@,
                ) == Some(i as int),
                None => index_of_text(schemes_of(self.children()), scheme@) is None,
            },
    {
        let ghost keys = schemes_of(self.children());
        let mut i: usize = 0;
        while i < self.registries.len()
            invariant
                i <= self.registries.len(),
                keys == schemes_of(self.children()),
                forall|j: int| 0 <= j < i ==> keys[j] != scheme@,
            decreases self.registries.len() - i,
        {
            assert(keys[i as int] == self.registries@[i as int].scheme());
            if text_equal(self.registries[i].uri_scheme().scheme.as_str(), scheme) {
                proof {
                    lemma_index_of_text(keys, scheme@);
                }
                return Some(i);
            }
            i += 1;
        }
        proof {
            lemma_index_of_text(keys, scheme@);
        }
        None
    }

    /// Registers `registry` for its scheme, in the place of the registry
    /// that served that scheme if there was one.
    pub fn register_scheme(&mut self, registry: Box<R>)
        requires
            old(self).wf(),
        ensures
            final(self).wf(),
            final(self).own() == old(self).own(),
            match index_of_text(schemes_of(old(self).children()), registry.scheme()) {
                Some(i) => final(self).children() == old(self).children().update(i, *registry),
                None => final(self).children() == old(self).children().push(*registry),
            },
    {
        let ghost before = self.children();
        let ghost keys = schemes_of(before);
        let child: R = *registry;
        proof {
            lemma_index_of_text(keys, child.scheme());
        }
        let found = self.position(child.uri_scheme().scheme.as_str());
        match found {
            Some(i) => {
                self.registries.set(i, child);
                proof {
                    assert(schemes_of(self.children()) =~= keys);
                }
            },
            None => {
                self.registries.push(child);
                proof {
                    assert(schemes_of(self.children()) =~= keys.push(child.scheme()));
                }
            },
        }
    }

    /// Index of the registry that serves the scheme of `uri`.
    fn route_uri(&self, uri: &str) -> (routed: McpResult<usize>)
        ensures
            match routed {
                Ok(i) => i < self.registries.len() && route(schemes_of(self.children()), uri@)
                    == Ok::<int, McpErrorView>(i as int),
                Err(e) => route(schemes_of(self.children()), uri@) == Err::<int, McpErrorView>(e@),
            },
    {
        let chars = chars_of(uri);
        let separator = chars_of("://");
        match find_from(&chars, &separator, 0) {
            None => Err(
                McpError::InvalidResource {
                    uri: uri.to_owned(),
                    message: "URI missing scheme".to_owned(),
                },
            ),
            Some(at) => {
                proof {
                    crate::text::lemma_first_match(uri@, "://"@, 0);
                }
                let scheme = uri.substring_char(0, at);
                match self.position(scheme) {
                    Some(i) => Ok(i),
                    None => Err(
                        McpError::InvalidResource {
                            uri: uri.to_owned(),
                            message: join3("No registry found for scheme '", scheme, "'"),
                        },
                    ),
                }
            },
        }
    }

    /// The registry that serves the scheme of `uri`.
    pub fn get_registry_for_uri(&self, uri: &str) -> (found: McpResult<&R>)
        ensures
            match found {
                Ok(registry) => route(schemes_of(self.children()), uri@) matches Ok(i) && 0 <= i
                    < self.children().len() && *registry == self.children()[i],
                Err(e) => route(schemes_of(self.children()), uri@) == Err::<int, McpErrorView>(e@),
            },
    {
        match self.route_uri(uri) {
            Ok(i) => Ok(&self.registries[i]),
            Err(e) => Err(e),
        }
    }

    /// The configurations of the schemes served, in the order of the
    /// registries.
    pub fn supported_schemes(&self) -> (schemes: Vec<&UriSchemeConfig>)
        ensures
            schemes@.len() == self.children().len(),
            forall|i: int|
                0 <= i < schemes@.len() ==> schemes@[i].scheme@ == schemes_of(self.children())[i],
    {
        let mut out: Vec<&UriSchemeConfig> = Vec::new();
        let mut i: usize = 0;
        while i < self.registries.len()
            invariant
                i <= self.registries.len(),
                out.len() == i,
                forall|k: int| 0 <= k < i ==> out@[k].scheme@ == self.registries@[k].scheme(),
            decreases self.registries.len() - i,
        {
            out.push(self.registries[i].uri_scheme());
            i += 1;
        }
        out
    }
}

impl<R: ResourceRegistry> Default for MultiSchemeResourceRegistry<R> {
    /// A router without registries.
    fn default() -> (router: Self)
        ensures
            router.wf(),
            router.children().len() == 0,
            router.own().scheme@ == "*"@,
    {
        MultiSchemeResourceRegistry::new()
    }
}

impl<R: ResourceRegistry> ResourceRegistry for MultiSchemeResourceRegistry<R> {
    open spec fn scheme(&self) -> Seq<char> {
        self.own().scheme@
    }

    open spec fn lookup(&self, uri: Seq<char>, context: &SecurityContext) -> Result<
        ResourceView,
        McpErrorView,
    > {
        match route(schemes_of(self.children()), uri) {
            Ok(i) => self.children()[i].lookup(uri, context),
            Err(e) => Err(e),
        }
    }

    open spec fn serves(&self, uri: Seq<char>) -> bool {
        route(schemes_of(self.children()), uri) is Ok
    }

    open spec fn holds(&self, uri: Seq<char>, context: &SecurityContext) -> Result<
        bool,
        McpErrorView,
    > {
        match route(schemes_of(self.children()), uri) {
            Ok(i) => self.children()[i].holds(uri, context),
            Err(e) => Err(e),
        }
    }

    open spec fn offer(&self, context: &SecurityContext) -> Result<
        Seq<ResourceTemplateView>,
        McpErrorView,
    > {
        gathered(self.children(), context)
    }

    /// What the registry of the scheme of `uri` answers, or the error of
    /// the routing.
    open spec fn admits(&self, uri: Seq<char>, context: &SecurityContext) -> Result<
        (),
        McpErrorView,
    > {
        match route(schemes_of(self.children()), uri) {
            Ok(i) => self.children()[i].admits(uri, context),
            Err(e) => Err(e),
        }
    }

    /// Some registry accepts the cancellation.
    open spec fn cancels(&self, subscription_id: Seq<char>, context: &SecurityContext) -> bool {
        exists|i: int|
            0 <= i < self.children().len() && (#[trigger] self.children()[i]).cancels(
                subscription_id,
                context,
            )
    }

    fn uri_scheme(&self) -> (config: &UriSchemeConfig)
        ensures
            *config == self.own(),
    {
        &self.own_scheme
    }

    fn list_resource_templates(&self, context: &SecurityContext) -> (templates: McpResult<
        Vec<ResourceTemplate>,
    >) {
        let ghost children = self.children();
        let mut all: Vec<ResourceTemplate> = Vec::new();
        let mut i: usize = 0;
        assert(children.take(0) =~= Seq::empty());
        assert(templates_view(all@) =~= Seq::empty());
        while i < self.registries.len()
            invariant
                i <= self.registries.len(),
                children == self.children(),
                gathered(children.take(i as int), context) == Ok::<
                    Seq<ResourceTemplateView>,
                    McpErrorView,
                >(templates_view(all@)),
            decreases self.registries.len() - i,
        {
            proof {
                assert(children.take(i + 1).drop_last() =~= children.take(i as int));
                assert(children.take(i + 1).last() == self.registries@[i as int]);
            }
            match self.registries[i].list_resource_templates(context) {
                Ok(mut templates) => {
                    let ghost before = all@;
                    let ghost added = templates@;
                    all.append(&mut templates);
                    assert(templates_view(all@) =~= templates_view(before) + templates_view(
                        added,
                    ));
                },
                Err(e) => {
                    proof {
                        lemma_gathered_prefix(children, i + 1, context);
                    }
                    return Err(e);
                },
            }
            i += 1;
        }
        assert(children.take(i as int) =~= children);
        Ok(all)
    }

    fn get_resource(&self, uri: &str, context: &SecurityContext) -> (found: McpResult<Resource>) {
        match self.route_uri(uri) {
            Ok(i) => self.registries[i].get_resource(uri, context),
            Err(e) => Err(e),
        }
    }

    fn resource_exists(&self, uri: &str, context: &SecurityContext) -> (exists: McpResult<bool>) {
        match self.route_uri(uri) {
            Ok(i) => self.registries[i].resource_exists(uri, context),
            Err(e) => Err(e),
        }
    }

    fn subscribe_to_resource(&self, uri: &str, context: &SecurityContext) -> (subscribed:
        McpResult<ResourceSubscription>) {
        match self.route_uri(uri) {
            Ok(i) => self.registries[i].subscribe_to_resource(uri, context),
            Err(e) => Err(e),
        }
    }

    fn unsubscribe_from_resource(&self, subscription_id: &str, context: &SecurityContext) -> (done:
        McpResult<()>)
        ensures
            done matches Err(e) ==> e@ == unknown_subscription(subscription_id@),
    {
        let mut i: usize = 0;
        while i < self.registries.len()
            invariant
                i <= self.registries.len(),
                forall|k: int|
                    0 <= k < i ==> !(#[trigger] self.registries@[k]).cancels(
                        subscription_id@,
                        context,
                    ),
            decreases self.registries.len() - i,
        {
            if self.registries[i].unsubscribe_from_resource(subscription_id, context).is_ok() {
                assert(self.children()[i as int].cancels(subscription_id@, context));
                return Ok(());
            }
            i += 1;
        }
        Err(
            McpError::InvalidResource {
                uri: join("subscription:", subscription_id),
                message: "Subscription not found in any registry".to_owned(),
            },
        )
    }

    fn can_handle_uri(&self, uri: &str) -> (yes: bool) {
        self.route_uri(uri).is_ok()
    }
}

/// A router answers for a URI what the registry of the URI's scheme answers,
/// whichever registry serves that scheme; for a URI without scheme, or with
/// a scheme that no registry serves, it answers with an invalid-resource
/// error.
pub proof fn lemma_routing<R: ResourceRegistry>(
    router: MultiSchemeResourceRegistry<R>,
    uri: Seq<char>,
    context: &SecurityContext,
    child: int,
)
    requires
        router.wf(),
    ensures
        0 <= child < router.children().len() && uri_scheme_of(uri) == Some(
            router.children()[child].scheme(),
        ) ==> router.lookup(uri, context) == router.children()[child].lookup(uri, context),
        (forall|i: int|
            0 <= i < router.children().len() ==> uri_scheme_of(uri) != Some(
                #[trigger] router.children()[i].scheme(),
            )) ==> (router.lookup(uri, context) matches Err(McpErrorView::InvalidResource { .. })),
{
    let schemes = schemes_of(router.children());
    match uri_scheme_of(uri) {
        Some(scheme) => {
            lemma_index_of_text(schemes, scheme);
            if 0 <= child < router.children().len() && scheme == router.children()[child].scheme() {
                assert(schemes[child] == scheme);
            }
            match index_of_text(schemes, scheme) {
                Some(i) => {
                    assert(schemes[i] == router.children()[i].scheme());
                },
                None => {},
            }
        },
        None => {},
    }
}

} // verus!
