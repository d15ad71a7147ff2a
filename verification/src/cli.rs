//! The argument parser: one pass over the argument vector, token by token.
//!
//! `parsed` says what an argument vector means. It folds `step` over the
//! tokens that follow the program name, and `Args::parse` computes it.

use vstd::prelude::*;
use vstd::string::*;
use reqwest::header::{HeaderMap, HeaderName, HeaderValue};
use crate::error::{Failure, ParseError, ParseErrorKind};
use crate::headers::{
    header_entries, header_map_try_insert, header_name_from_bytes, header_name_of,
    header_value_from_str, header_value_of, new_header_map, no_headers,
};
use crate::item::{body_fields, is_body_field, items_view, ItemView, RequestItemType};
use crate::method::Method;
use crate::options::{
    default_settings, is_option, lemma_cluster_splits, with_cluster, with_option, Command,
    ContentType, Settings,
};
use crate::token::{classify, not_led_by_dash, token_kind, TokenKind, TokenKindView};
use crate::text::has_prefix;
use crate::url::{lemma_normalized_has_scheme, normalize, normalized};

verus! {

/// A parsed command line: what to do, and the request to send.
#[derive(Debug)]
pub struct Args {
    pub command: Command,
    pub method: Method,
    pub url: String,
    pub headers: HeaderMap,
    pub query: Vec<(String, String)>,
    pub data: Vec<(RequestItemType, String, String)>,
    pub format: ContentType,
}

/// A parsed command line over mathematical values. `headers` maps each
/// header name to its value; `query` and `data` keep the order of the tokens.
pub struct ArgsView {
    pub command: Command,
    pub method: Method,
    pub url: Seq<char>,
    pub headers: Map<HeaderName, HeaderValue>,
    pub query: Seq<(Seq<char>, Seq<char>)>,
    pub data: Seq<ItemView>,
    pub format: ContentType,
}

/// The view of a list of key and value pairs.
pub open spec fn pairs_view(pairs: Seq<(String, String)>) -> Seq<(Seq<char>, Seq<char>)> {
    pairs.map_values(|pair: (String, String)| (pair.0@, pair.1@))
}

impl View for Args {
    type V = ArgsView;

    open spec fn view(&self) -> ArgsView {
        ArgsView {
            command: self.command,
            method: self.method,
            url: self.url@,
            headers: header_entries(self.headers),
            query: pairs_view(self.query@),
            data: items_view(self.data@),
            format: self.format,
        }
    }
}

/// The parser between two tokens: what it has gathered, and whether it has
/// seen a method and a URL yet.
pub struct Progress {
    pub args: ArgsView,
    pub method_seen: bool,
    pub url_seen: bool,
}

/// The arguments before any token: a GET request with a JSON body, no URL.
pub open spec fn empty_args() -> ArgsView {
    ArgsView {
        command: default_settings().command,
        method: Method::Get,
        url: Seq::empty(),
        headers: no_headers(),
        query: Seq::empty(),
        data: Seq::empty(),
        format: default_settings().format,
    }
}

/// The parser before the first token.
pub open spec fn initial() -> Progress {
    Progress { args: empty_args(), method_seen: false, url_seen: false }
}

/// The part of the arguments that the flags decide.
pub open spec fn settings_of(args: ArgsView) -> Settings {
    Settings { command: args.command, format: args.format }
}

/// The parser with the command and the encoding that the flags decide.
pub open spec fn with_settings(p: Progress, settings: Settings) -> Progress {
    Progress {
        args: ArgsView { command: settings.command, format: settings.format, ..p.args },
        ..p
    }
}

/// The parser after it has taken `token` as the URL.
pub open spec fn take_url(p: Progress, token: Seq<char>) -> Progress {
    Progress { args: ArgsView { url: normalized(token), ..p.args }, url_seen: true, ..p }
}

/// The parser after a request item. A header is bound to its value, and a
/// later one of the same name replaces it. A query parameter joins the query,
/// a body field joins the data. A header whose key or value the HTTP library
/// refuses fails, the key first, and the failure holds the key.
pub open spec fn take_item(
    p: Progress,
    kind: RequestItemType,
    key: Seq<char>,
    value: Seq<char>,
) -> Result<Progress, Failure> {
    match kind {
        RequestItemType::Header => match header_name_of(key) {
            None => Err((ParseErrorKind::HeaderName, key)),
            Some(name) => match header_value_of(value) {
                None => Err((ParseErrorKind::HeaderValue, key)),
                Some(stored) => Ok(
                    Progress {
                        args: ArgsView { headers: p.args.headers.insert(name, stored), ..p.args },
                        ..p
                    },
                ),
            },
        },
        RequestItemType::Query => Ok(
            Progress { args: ArgsView { query: p.args.query.push((key, value)), ..p.args }, ..p },
        ),
        RequestItemType::KeyVal | RequestItemType::RawJson => Ok(
            Progress {
                args: ArgsView { data: p.args.data.push((kind, key, value)), ..p.args },
                ..p
            },
        ),
    }
}

/// The parser after one more token. An option token takes effect wherever it
/// stands. The first method literal before the URL is the method. The first
/// token after that which is neither is the URL, whatever it looks like. Every
/// later token must be a request item: a method literal after the URL is no
/// method, and fails as any token without a delimiter does.
pub open spec fn step(p: Progress, token: Seq<char>) -> Result<Progress, Failure> {
    match token_kind(token) {
        TokenKindView::Flag => match with_option(settings_of(p.args), token) {
            Some(settings) => Ok(with_settings(p, settings)),
            None => Err((ParseErrorKind::UnknownOption, token)),
        },
        TokenKindView::MaybeMethod(method) => if !p.method_seen && !p.url_seen {
            Ok(Progress { args: ArgsView { method: method, ..p.args }, method_seen: true, ..p })
        } else if !p.url_seen {
            Ok(take_url(p, token))
        } else {
            Err((ParseErrorKind::InvalidArgument, token))
        },
        TokenKindView::RequestItem(kind, key, value) => if !p.url_seen {
            Ok(take_url(p, token))
        } else {
            take_item(p, kind, key, value)
        },
        TokenKindView::PlainString => if !p.url_seen {
            Ok(take_url(p, token))
        } else {
            Err((ParseErrorKind::InvalidArgument, token))
        },
    }
}

/// The parser after a run of tokens, or the failure of the first token that
/// fails.
pub open spec fn run(p: Progress, tokens: Seq<Seq<char>>) -> Result<Progress, Failure>
    decreases tokens.len(),
{
    if tokens.len() == 0 {
        Ok(p)
    } else {
        match run(p, tokens.drop_last()) {
            Ok(before) => step(before, tokens.last()),
            Err(e) => Err(e),
        }
    }
}

/// The result once all tokens are read: a request needs a URL.
pub open spec fn close(p: Progress) -> Result<ArgsView, Failure> {
    if !p.url_seen && p.args.command == Command::Request {
        Err((ParseErrorKind::MissingUrl, Seq::empty()))
    } else {
        Ok(p.args)
    }
}

/// The tokens of an argument vector: all but the program name.
pub open spec fn tokens_of(argv: Seq<Seq<char>>) -> Seq<Seq<char>> {
    if argv.len() == 0 {
        argv
    } else {
        argv.skip(1)
    }
}

/// What an argument vector means.
pub open spec fn parsed(argv: Seq<Seq<char>>) -> Result<ArgsView, Failure> {
    match run(initial(), tokens_of(argv)) {
        Ok(p) => close(p),
        Err(e) => Err(e),
    }
}

/// The texts of an argument vector.
pub open spec fn texts(argv: Seq<&str>) -> Seq<Seq<char>> {
    argv.map_values(|arg: &str| arg@)
}

/// Whether the parser, being at `p`, stores `token` as a header with the key
/// `key`: it is past the URL, and the HTTP library accepts key and value.
pub open spec fn stores_header(p: Progress, token: Seq<char>, key: Seq<char>) -> bool {
    &&& p.url_seen
    &&& token_kind(token) matches TokenKindView::RequestItem(kind, k, v)
    &&& kind == RequestItemType::Header
    &&& k == key
    &&& header_name_of(k) is Some
    &&& header_value_of(v) is Some
}

/// Whether the parser reaches token `i` of `argv` and stores it as a header
/// with the key `key`.
pub open spec fn stores_header_at(argv: Seq<Seq<char>>, i: int, key: Seq<char>) -> bool {
    &&& 0 <= i < tokens_of(argv).len()
    &&& run(initial(), tokens_of(argv).take(i)) matches Ok(p)
    &&& stores_header(p, tokens_of(argv)[i], key)
}

/// A run that has failed after some of the tokens fails in the same way on
/// all of them.
pub proof fn lemma_run_fails_early(p: Progress, tokens: Seq<Seq<char>>, upto: int)
    requires
        0 <= upto <= tokens.len(),
        run(p, tokens.take(upto)) is Err,
    ensures
        run(p, tokens) == run(p, tokens.take(upto)),
    decreases tokens.len() - upto,
{
    if upto < tokens.len() {
        assert(tokens.take(upto + 1).drop_last() =~= tokens.take(upto));
        lemma_run_fails_early(p, tokens, upto + 1);
    } else {
        assert(tokens.take(upto) =~= tokens);
    }
}

/// A run over `first + second` is a run over `first` followed by a run over
/// `second`.
pub proof fn lemma_run_concat(p: Progress, first: Seq<Seq<char>>, second: Seq<Seq<char>>)
    ensures
        run(p, first + second) == match run(p, first) {
            Ok(between) => run(between, second),
            Err(e) => Err(e),
        },
    decreases second.len(),
{
    if second.len() == 0 {
        assert(first + second =~= first);
    } else {
        assert((first + second).drop_last() =~= first + second.drop_last());
        assert((first + second).last() == second.last());
        lemma_run_concat(p, first, second.drop_last());
    }
}

/// A run over one token is one step.
pub proof fn lemma_run_one(p: Progress, token: Seq<char>)
    ensures
        run(p, seq![token]) == step(p, token),
{
    reveal_with_fuel(run, 2);
    assert(seq![token].drop_last() =~= Seq::empty());
}

/// What holds of the parser at every point: its data are fields of the body,
/// and once it has seen a URL, that URL begins with `http`.
pub open spec fn well_formed(p: Progress) -> bool {
    &&& body_fields(p.args.data)
    &&& p.url_seen ==> has_prefix(p.args.url, "http"@)
}

/// One token keeps the parser well formed.
pub proof fn lemma_step_well_formed(p: Progress, token: Seq<char>)
    requires
        well_formed(p),
    ensures
        step(p, token) matches Ok(after) ==> well_formed(after),
{
    lemma_normalized_has_scheme(token);
    match step(p, token) {
        Ok(after) => {
            assert(body_fields(after.args.data)) by {
                assert forall|i: int| 0 <= i < after.args.data.len() implies is_body_field(
                    (#[trigger] after.args.data[i]).0,
                ) by {
                    if i < p.args.data.len() {
                        assert(after.args.data[i] == p.args.data[i]);
                    }
                }
            }
        },
        Err(_) => {},
    }
}

/// A run of tokens keeps the parser well formed.
pub proof fn lemma_run_well_formed(p: Progress, tokens: Seq<Seq<char>>)
    requires
        well_formed(p),
    ensures
        run(p, tokens) matches Ok(after) ==> well_formed(after),
    decreases tokens.len(),
{
    if tokens.len() > 0 {
        lemma_run_well_formed(p, tokens.drop_last());
        match run(p, tokens.drop_last()) {
            Ok(before) => {
                lemma_step_well_formed(before, tokens.last());
            },
            Err(_) => {},
        }
    }
}

/// Every accepted argument vector holds only fields of the body as its data,
/// and every accepted request has an absolute URL: one that begins with
/// `http`. Arguments that ask for a request and give no URL are rejected.
pub proof fn lemma_parsed_well_formed(argv: Seq<Seq<char>>)
    ensures
        parsed(argv) matches Ok(args) ==> {
            &&& body_fields(args.data)
            &&& args.command == Command::Request ==> has_prefix(args.url, "http"@)
        },
{
    assert(body_fields(initial().args.data));
    lemma_run_well_formed(initial(), tokens_of(argv));
}

/// Option tokens alone leave the parser without a URL.
pub proof fn lemma_options_take_no_url(p: Progress, tokens: Seq<Seq<char>>)
    requires
        !p.url_seen,
        forall|i: int| 0 <= i < tokens.len() ==> is_option(#[trigger] tokens[i]),
    ensures
        match run(p, tokens) {
            Ok(after) => !after.url_seen,
            Err(e) => e.0 == ParseErrorKind::UnknownOption,
        },
    decreases tokens.len(),
{
    if tokens.len() > 0 {
        assert(is_option(tokens.last()));
        lemma_options_take_no_url(p, tokens.drop_last());
    }
}

/// Without a URL token no request is accepted: an argument vector whose
/// tokens are all option tokens is rejected for its missing URL, unless an
/// option is unknown or asks for the help or the version.
pub proof fn lemma_options_alone_miss_url(argv: Seq<Seq<char>>)
    requires
        forall|i: int| 1 <= i < argv.len() ==> is_option(#[trigger] argv[i]),
    ensures
        match parsed(argv) {
            Ok(args) => args.command != Command::Request,
            Err(e) => e.0 == ParseErrorKind::UnknownOption || e == (
                ParseErrorKind::MissingUrl,
                Seq::<char>::empty(),
            ),
        },
{
    let tokens = tokens_of(argv);
    assert forall|i: int| 0 <= i < tokens.len() implies is_option(#[trigger] tokens[i]) by {
        assert(tokens[i] == argv[i + 1]);
    }
    lemma_options_take_no_url(initial(), tokens);
}

/// The option token that holds the given one-letter flags.
pub open spec fn cluster(letters: Seq<char>) -> Seq<char> {
    seq!['-'] + letters
}

/// A cluster token applies its letters, and fails as a whole if one of them
/// names no flag.
pub proof fn lemma_cluster_step(p: Progress, letters: Seq<char>)
    requires
        not_led_by_dash(letters),
    ensures
        step(p, cluster(letters)) == match with_cluster(settings_of(p.args), letters) {
            Some(settings) => Ok(with_settings(p, settings)),
            None => Err((ParseErrorKind::UnknownOption, cluster(letters))),
        },
{
    reveal_strlit("-");
    reveal_strlit("--");
    let token = cluster(letters);
    assert(token.subrange(0, 1) =~= "-"@);
    assert(token.skip(1) =~= letters);
    if has_prefix(token, "--"@) {
        assert(token.subrange(0, 2)[1] == '-');
        assert(token[1] == letters[0]);
    }
}

/// Short flags merge: one token `-ab` in an argument vector means what the
/// two tokens `-a` and `-b` mean in its place. Both vectors are accepted or
/// both are rejected; accepted, they give the same arguments, and rejected,
/// the same kind of error.
pub proof fn lemma_short_flags_merge(
    before: Seq<Seq<char>>,
    first: Seq<char>,
    second: Seq<char>,
    after: Seq<Seq<char>>,
)
    requires
        before.len() >= 1,
        not_led_by_dash(first),
        not_led_by_dash(second),
    ensures
        ({
            let merged = parsed(before + seq![cluster(first + second)] + after);
            let apart = parsed(before + seq![cluster(first), cluster(second)] + after);
            match merged {
                Ok(args) => apart == merged,
                Err(e) => apart matches Err(other) && other.0 == e.0,
            }
        }),
{
    let one = seq![cluster(first + second)];
    let two = seq![cluster(first), cluster(second)];
    let head = before.skip(1);
    assert(tokens_of(before + one + after) =~= head + one + after);
    assert(tokens_of(before + two + after) =~= head + two + after);
    lemma_run_concat(initial(), head + one, after);
    lemma_run_concat(initial(), head + two, after);
    lemma_run_concat(initial(), head, one);
    lemma_run_concat(initial(), head, two);
    match run(initial(), head) {
        Err(_) => {},
        Ok(p) => {
            lemma_run_one(p, cluster(first + second));
            lemma_run_one(p, cluster(first));
            assert(two.drop_last() =~= seq![cluster(first)]);
            assert(not_led_by_dash(first + second)) by {
                if first.len() > 0 {
                    assert((first + second)[0] == first[0]);
                } else {
                    assert(first + second =~= second);
                }
            }
            lemma_cluster_step(p, first + second);
            lemma_cluster_step(p, first);
            lemma_cluster_splits(settings_of(p.args), first, second);
            match with_cluster(settings_of(p.args), first) {
                None => {},
                Some(between) => {
                    let q = with_settings(p, between);
                    assert(settings_of(q.args) == between);
                    lemma_cluster_step(q, second);
                    match with_cluster(between, second) {
                        None => {},
                        Some(settings) => {
                            assert(with_settings(q, settings) == with_settings(p, settings));
                        },
                    }
                },
            }
        },
    }
}

/// The parser's state as `Args::parse` holds it.
pub open spec fn progress_of(
    settings: Settings,
    method: Method,
    url: Seq<char>,
    headers: Map<HeaderName, HeaderValue>,
    query: Seq<(Seq<char>, Seq<char>)>,
    data: Seq<ItemView>,
    method_seen: bool,
    url_seen: bool,
) -> Progress {
    Progress {
        args: ArgsView {
            command: settings.command,
            method: method,
            url: url,
            headers: headers,
            query: query,
            data: data,
            format: settings.format,
        },
        method_seen: method_seen,
        url_seen: url_seen,
    }
}

/// Stores the header `key: value` in `headers`, replacing an earlier value of
/// the same name. Fails, with the key, where the HTTP library refuses the key,
/// the value, or any further header.
fn add_header(headers: &mut HeaderMap, key: String, value: &str) -> (r: Result<(), ParseError>)
    ensures
        match r {
            Ok(_) => {
                &&& header_name_of(key@) is Some
                &&& header_value_of(value@) is Some
                &&& header_entries(*final(headers)) == header_entries(*old(headers)).insert(
                    header_name_of(key@)->0,
                    header_value_of(value@)->0,
                )
            },
            Err(e) => {
                &&& e.ctx@ == key@
                &&& match e.kind {
                    ParseErrorKind::HeaderName => header_name_of(key@) is None,
                    ParseErrorKind::HeaderValue => header_name_of(key@) is Some && header_value_of(
                        value@,
                    ) is None,
                    ParseErrorKind::TooManyHeaders => header_name_of(key@) is Some
                        && header_value_of(value@) is Some,
                    _ => false,
                }
            },
        },
{
    let name = match header_name_from_bytes(key.as_str()) {
        Ok(name) => name,
        Err(_) => {
            return Err(ParseError::new(ParseErrorKind::HeaderName, key));
        },
    };
    let stored = match header_value_from_str(value) {
        Ok(stored) => stored,
        Err(_) => {
            return Err(ParseError::new(ParseErrorKind::HeaderValue, key));
        },
    };
    match header_map_try_insert(headers, name, stored) {
        Ok(_) => Ok(()),
        Err(_) => Err(ParseError::new(ParseErrorKind::TooManyHeaders, key)),
    }
}

impl Args {
    /// The arguments before any token.
    pub fn new() -> (args: Args)
        ensures
            args@ == empty_args(),
    {
        let args = Args {
            command: Command::Request,
            method: Method::Get,
            url: String::new(),
            headers: new_header_map(),
            query: Vec::new(),
            data: Vec::new(),
            format: ContentType::Json,
        };
        assert(args@.query =~= Seq::empty());
        assert(args@.data =~= Seq::empty());
        args
    }

    /// Parses an argument vector, the program name first.
    ///
    /// The result is what `parsed` says, with one exception: the header map
    /// of the HTTP library may refuse a header that the parser would store.
    /// The error is then `TooManyHeaders` with that header's key.
    pub fn parse(args: Vec<&str>) -> (r: Result<Args, ParseError>)
        ensures
            match r {
                Ok(out) => {
                    &&& parsed(texts(args@)) matches Ok(meant) && meant == out@
                    &&& body_fields(items_view(out.data@))
                },
                Err(e) => if e.kind == ParseErrorKind::TooManyHeaders {
                    exists|i: int| stores_header_at(texts(args@), i, e.ctx@)
                } else {
                    parsed(texts(args@)) matches Err(failure) && failure == e@
                },
            },
    {
        let ghost argv = texts(args@);
        let ghost tokens = tokens_of(argv);
        let n: usize = args.len();
        if n == 0 {
            assert(tokens =~= Seq::empty());
            return Err(ParseError::new(ParseErrorKind::MissingUrl, String::new()));
        }
        let mut settings = Settings::new();
        let mut method = Method::Get;
        let mut url = String::new();
        let mut headers = new_header_map();
        let mut query: Vec<(String, String)> = Vec::new();
        let mut data: Vec<(RequestItemType, String, String)> = Vec::new();
        let mut method_seen = false;
        let mut url_seen = false;
        let mut i: usize = 1;
        proof {
            assert(pairs_view(query@) =~= Seq::empty());
            assert(items_view(data@) =~= Seq::empty());
            assert(tokens.take(0) =~= Seq::empty());
        }
        while i < n
            invariant
                1 <= i <= n,
                n == args.len(),
                argv == texts(args@),
                tokens == tokens_of(argv),
                run(initial(), tokens.take(i - 1)) matches Ok(p) && p == progress_of(
                    settings,
                    method,
                    url@,
                    header_entries(headers),
                    pairs_view(query@),
                    items_view(data@),
                    method_seen,
                    url_seen,
                ),
            decreases n - i,
        {
            let token: &str = args[i];
            let ghost before = progress_of(
                settings,
                method,
                url@,
                header_entries(headers),
                pairs_view(query@),
                items_view(data@),
                method_seen,
                url_seen,
            );
            proof {
                assert(tokens[i - 1] == token@);
                assert(tokens.take(i as int).drop_last() =~= tokens.take(i - 1));
                assert(tokens.take(i as int).last() == token@);
                assert(run(initial(), tokens.take(i as int)) == step(before, token@));
            }
            let mut failure: Option<ParseError> = None;
            match classify(token) {
                TokenKind::Flag => {
                    match settings.apply_option(token) {
                        Ok(changed) => {
                            settings = changed;
                        },
                        Err(e) => {
                            failure = Some(e);
                        },
                    }
                },
                TokenKind::MaybeMethod(named) => {
                    if !method_seen && !url_seen {
                        method = named;
                        method_seen = true;
                    } else if !url_seen {
                        url = normalize(token);
                        url_seen = true;
                    } else {
                        failure = Some(
                            ParseError::new(
                                ParseErrorKind::InvalidArgument,
                                String::from_str(token),
                            ),
                        );
                    }
                },
                TokenKind::RequestItem(kind, key, value) => {
                    if !url_seen {
                        url = normalize(token);
                        url_seen = true;
                    } else {
                        match kind {
                            RequestItemType::Header => {
                                match add_header(&mut headers, key, value.as_str()) {
                                    Ok(_) => {},
                                    Err(e) => {
                                        proof {
                                            if e.kind == ParseErrorKind::TooManyHeaders {
                                                assert(stores_header(before, token@, e.ctx@));
                                                assert(stores_header_at(argv, i - 1, e.ctx@));
                                            }
                                        }
                                        failure = Some(e);
                                    },
                                }
                            },
                            RequestItemType::Query => {
                                query.push((key, value));
                                assert(pairs_view(query@) =~= before.args.query.push(
                                    (key@, value@),
                                ));
                            },
                            RequestItemType::KeyVal | RequestItemType::RawJson => {
                                data.push((kind, key, value));
                                assert(items_view(data@) =~= before.args.data.push(
                                    (kind, key@, value@),
                                ));
                            },
                        }
                    }
                },
                TokenKind::PlainString => {
                    if !url_seen {
                        url = normalize(token);
                        url_seen = true;
                    } else {
                        failure = Some(
                            ParseError::new(
                                ParseErrorKind::InvalidArgument,
                                String::from_str(token),
                            ),
                        );
                    }
                },
            }
            match failure {
                Some(e) => {
                    proof {
                        if e.kind != ParseErrorKind::TooManyHeaders {
                            assert(step(before, token@) matches Err(failure) && failure == e@);
                            lemma_run_fails_early(initial(), tokens, i as int);
                        }
                    }
                    return Err(e);
                },
                None => {},
            }
            i += 1;
        }
        proof {
            assert(tokens.take(i - 1) =~= tokens);
            lemma_parsed_well_formed(argv);
        }
        if !url_seen {
            match settings.command {
                Command::Request => {
                    return Err(ParseError::new(ParseErrorKind::MissingUrl, String::new()));
                },
                _ => {},
            }
        }
        Ok(
            Args {
                command: settings.command,
                method,
                url,
                headers,
                query,
                data,
                format: settings.format,
            },
        )
    }
}

} // verus!
