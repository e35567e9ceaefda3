//! Links of the form `ipams://`: what one asks for, and what is done about it.
use vstd::prelude::*;
use vstd::string::*;
use crate::auth::{
    get_user_id_from_token, keyring_outcome, load_token, loaded, save_token, user_of, KeyringFault, TokenCache,
};
use crate::pairs::{looked_up, pair_map, pair_texts, TextMap};
use crate::text::{chars_of, copy_opt, decimal, law_decimal, opt, same, same_opt};
use crate::transfer::message::{send, sent, Effect, Notice};

verus! {

/// url's `Url`: an address that has been read. It is carried without being looked into.
#[verifier::external_type_specification]
#[verifier::external_body]
pub struct ExUrl(url::Url);

/// url's `ParseError`: why a text is no address.
#[verifier::external_type_specification]
#[verifier::external_body]
pub struct ExParseError(url::ParseError);

/// The parts of an address that matter here.
#[verifier::ext_equal]
pub struct UrlView {
    /// The host, if the address has one.
    pub host: Option<Seq<char>>,
    /// The names and values of the query, in order.
    pub query: Seq<(Seq<char>, Seq<char>)>,
}

/// What an address holds.
pub uninterp spec fn url_view(address: url::Url) -> UrlView;

/// Why a text is no address, in words.
pub uninterp spec fn url_fault(fault: url::ParseError) -> Seq<char>;

/// What `Url::parse` makes of a text: an address, or why it is none.
pub uninterp spec fn parsed_url(text: Seq<char>) -> Result<UrlView, Seq<char>>;

/// `Url::parse`: reads an address. What the address holds, or why the text is none, is a function of
/// the text.
#[verifier::external_body]
fn parse_url(text: &str) -> (r: Result<url::Url, url::ParseError>)
    ensures
        (match r {
            Ok(address) => Ok(url_view(address)),
            Err(fault) => Err(url_fault(fault)),
        }) == parsed_url(text@),
{
    url::Url::parse(text)
}

/// The `Display` of `url::ParseError`: the fault in words.
#[verifier::external_body]
fn fault_text(fault: &url::ParseError) -> (r: String)
    ensures
        r@ == url_fault(*fault),
{
    fault.to_string()
}

/// `Url::host_str`: the host, if the address has one.
#[verifier::external_body]
fn host_text(address: &url::Url) -> (r: Option<&str>)
    ensures
        (match r {
            Some(s) => Some(s@),
            None => None,
        }) == url_view(*address).host,
{
    address.host_str()
}

/// `Url::query_pairs`: the names and values of the query, in order.
#[verifier::external_body]
fn query_list(address: &url::Url) -> (r: Vec<(String, String)>)
    ensures
        pair_texts(r@) == url_view(*address).query,
{
    address.query_pairs().into_owned().collect()
}

/// What a link asks for.
pub enum Link {
    /// An upload, with these parameters.
    Upload(TextMap),
    /// A login, with these parameters.
    Auth(TextMap),
    /// Nothing that is known.
    Unknown,
}

/// What a link asks for, by what it holds.
#[verifier::ext_equal]
pub enum LinkView {
    Upload(Map<Seq<char>, Seq<char>>),
    Auth(Map<Seq<char>, Seq<char>>),
    Unknown,
}

impl View for Link {
    type V = LinkView;

    open spec fn view(&self) -> LinkView {
        match self {
            Link::Upload(params) => LinkView::Upload(params@),
            Link::Auth(params) => LinkView::Auth(params@),
            Link::Unknown => LinkView::Unknown,
        }
    }
}

/// What a link with this host and these parameters asks for. Of two parameters of the same name the
/// later counts.
pub open spec fn link_of(host: Option<Seq<char>>, query: Seq<(Seq<char>, Seq<char>)>) -> LinkView {
    if host == Some("upload"@) {
        LinkView::Upload(pair_map(query))
    } else if host == Some("auth"@) {
        LinkView::Auth(pair_map(query))
    } else {
        LinkView::Unknown
    }
}

/// What a text asks for, or why it is no link.
pub open spec fn asked(text: Seq<char>) -> Result<LinkView, Seq<char>> {
    match parsed_url(text) {
        Ok(address) => Ok(link_of(address.host, address.query)),
        Err(fault) => Err("Invalid URL: "@ + fault),
    }
}

/// The parameters of a query by name.
pub fn parse_query(query: &Vec<(String, String)>) -> (r: TextMap)
    ensures
        r@ == pair_map(pair_texts(query@)),
{
    let ghost texts = pair_texts(query@);
    let mut out = TextMap::new();
    let mut i: usize = 0;
    assert(texts.take(0) =~= Seq::empty());
    while i < query.len()
        invariant
            i <= query@.len(),
            texts == pair_texts(query@),
            out@ == pair_map(texts.take(i as int)),
        decreases query@.len() - i,
    {
        assert(texts.take(i + 1).drop_last() =~= texts.take(i as int));
        assert(texts.take(i + 1).last() == (query@[i as int].0@, query@[i as int].1@));
        out.insert(query[i].0.clone(), query[i].1.clone());
        i = i + 1;
    }
    assert(texts.take(i as int) =~= texts);
    out
}

/// What a link with this host and these parameters asks for.
pub fn read_link(host: &Option<String>, query: &Vec<(String, String)>) -> (r: Link)
    ensures
        r@ == link_of(opt(*host), pair_texts(query@)),
{
    match host {
        Some(host) => {
            if same(host, "upload") {
                Link::Upload(parse_query(query))
            } else if same(host, "auth") {
                Link::Auth(parse_query(query))
            } else {
                Link::Unknown
            }
        },
        None => Link::Unknown,
    }
}

/// What a text asks for.
pub fn handle_deep_link(text: &str) -> (r: Result<Link, String>)
    ensures
        match r {
            Ok(link) => asked(text@) == Ok::<LinkView, Seq<char>>(link@),
            Err(e) => asked(text@) == Err::<LinkView, Seq<char>>(e@),
        },
{
    match parse_url(text) {
        Ok(address) => {
            let host = match host_text(&address) {
                Some(host) => Some(host.to_string()),
                None => None,
            };
            Ok(read_link(&host, &query_list(&address)))
        },
        Err(fault) => {
            let mut error = "Invalid URL: ".to_string();
            error.append(&fault_text(&fault));
            Err(error)
        },
    }
}

/// The token that comes with a link.
pub fn link_token(params: &TextMap) -> (r: Option<String>)
    ensures
        opt(r) == looked_up(params@, "token"@),
{
    params.get("token")
}

/// Logs in with the token that comes with a link: the window is shown and told of it. `kept` is what
/// came of putting the token into the keyring.
pub fn handle_auth(
    cache: &mut TokenCache,
    params: &TextMap,
    kept: &Result<(), KeyringFault>,
    out: &mut Vec<Effect<String>>,
) -> (r: Result<(), String>)
    ensures
        match looked_up(params@, "token"@) {
            None => {
                &&& r matches Err(e) && e@ == "Missing token parameter"@
                &&& final(cache)@ == old(cache)@
                &&& sent(final(out)@) == sent(old(out)@)
            },
            Some(token) => {
                &&& final(cache)@ == Some(token)
                &&& match keyring_outcome(*kept, "save"@) {
                    Ok(()) => r is Ok && sent(final(out)@) == sent(old(out)@) + seq![
                        Effect::ShowWindow,
                        Effect::Emit(Notice::TokenSaved { token }),
                    ],
                    Err(text) => r matches Err(e) && e@ == text && sent(final(out)@) == sent(old(out)@),
                }
            },
        },
{
    let token = match link_token(params) {
        Some(token) => token,
        None => {
            return Err("Missing token parameter".to_string());
        },
    };
    match save_token(cache, &token, kept) {
        Ok(()) => {},
        Err(e) => {
            return Err(e);
        },
    }
    send(out, Effect::ShowWindow);
    send(out, Effect::Emit(Notice::TokenSaved { token }));
    Ok(())
}

/// Whether a character is a decimal digit.
pub open spec fn is_digit(c: char) -> bool {
    '0' <= c <= '9'
}

/// The value of decimal digits.
pub open spec fn digits_value(digits: Seq<char>) -> nat
    decreases digits.len(),
{
    if digits.len() == 0 {
        0
    } else {
        digits_value(digits.drop_last()) * 10 + (digits.last() as nat - 48) as nat
    }
}

/// The digits of a number that may have a plus sign.
pub open spec fn unsigned_digits(text: Seq<char>) -> Seq<char> {
    if text.len() > 0 && text[0] == '+' {
        text.skip(1)
    } else {
        text
    }
}

/// The number that a text is: digits, at least one, behind a plus sign or none, of which the number
/// fits.
pub open spec fn number_of(text: Seq<char>) -> Option<u32> {
    let digits = unsigned_digits(text);
    if digits.len() > 0 && (forall|i: int| 0 <= i < digits.len() ==> is_digit(#[trigger] digits[i])) && digits_value(
        digits,
    ) <= u32::MAX {
        Some(digits_value(digits) as u32)
    } else {
        None
    }
}

proof fn lemma_value_grows(digits: Seq<char>, n: int)
    requires
        0 <= n <= digits.len(),
    ensures
        digits_value(digits.take(n)) <= digits_value(digits),
    decreases digits.len() - n,
{
    if n < digits.len() {
        lemma_value_grows(digits, n + 1);
        assert(digits.take(n + 1).drop_last() =~= digits.take(n));
    } else {
        assert(digits.take(n) =~= digits);
    }
}

fn digit_value(c: char) -> (r: u64)
    requires
        is_digit(c),
    ensures
        r == c as nat - 48,
{
    (c as u32 - 48) as u64
}

/// The number that a text is.
pub fn parse_number(text: &str) -> (r: Option<u32>)
    ensures
        r == number_of(text@),
{
    let chars = chars_of(text);
    let start: usize = if chars.len() > 0 && chars[0] == '+' {
        1
    } else {
        0
    };
    let ghost digits = unsigned_digits(text@);
    assert(digits =~= chars@.skip(start as int));
    if chars.len() == start {
        return None;
    }
    let mut value: u64 = 0;
    let mut i: usize = start;
    assert(digits.take(0) =~= Seq::empty());
    while i < chars.len()
        invariant
            start <= i <= chars@.len(),
            digits == chars@.skip(start as int),
            digits == unsigned_digits(text@),
            value <= u32::MAX,
            value == digits_value(digits.take(i - start)),
            forall|j: int| 0 <= j < i - start ==> is_digit(#[trigger] digits[j]),
        decreases chars@.len() - i,
    {
        let c = chars[i];
        assert(digits[i - start] == c);
        if !('0' <= c && c <= '9') {
            return None;
        }
        proof {
            assert(digits.take(i + 1 - start).drop_last() =~= digits.take(i - start));
            assert(digits.take(i + 1 - start).last() == c);
        }
        value = value * 10 + digit_value(c);
        if value > 0xffff_ffff {
            proof {
                lemma_value_grows(digits, i + 1 - start);
            }
            return None;
        }
        i = i + 1;
    }
    assert(digits.take(i - start) =~= digits);
    Some(value as u32)
}

/// How many files are asked for; none means a folder.
pub open spec fn files_asked(params: Map<Seq<char>, Seq<char>>) -> u32 {
    if looked_up(params, "mode"@) == Some("folder"@) {
        0
    } else {
        match looked_up(params, "count"@) {
            Some(text) => match number_of(text) {
                Some(n) => n,
                None => 1,
            },
            None => 1,
        }
    }
}

/// An upload that is asked for.
#[derive(Debug)]
pub struct UploadParams {
    pub project_id: String,
    pub folder_id: Option<String>,
    pub asset_type_id: Option<String>,
    /// How many files; none means a folder.
    pub count: u32,
    pub token: Option<String>,
}

/// What an upload that is asked for holds.
#[verifier::ext_equal]
pub struct ParamsView {
    pub project_id: Seq<char>,
    pub folder_id: Option<Seq<char>>,
    pub asset_type_id: Option<Seq<char>>,
    pub count: u32,
    pub token: Option<Seq<char>>,
}

impl View for UploadParams {
    type V = ParamsView;

    open spec fn view(&self) -> ParamsView {
        ParamsView {
            project_id: self.project_id@,
            folder_id: opt(self.folder_id),
            asset_type_id: opt(self.asset_type_id),
            count: self.count,
            token: opt(self.token),
        }
    }
}

/// What is done about a link that asks for an upload.
pub enum UploadLink {
    /// Nothing: the token is another user's.
    Mismatch,
    /// The user has to log in first.
    Login,
    /// Nothing: the link does not say to which project.
    NoProject,
    /// The upload begins.
    Begin(UploadParams),
}

/// Both tokens tell their users, and the users are not the same.
pub open spec fn other_user(current: Option<Seq<char>>, incoming: Option<Seq<char>>) -> bool {
    match (current, incoming) {
        (Some(current), Some(incoming)) => user_of(current) is Some && user_of(incoming) is Some && user_of(current)
            != user_of(incoming),
        _ => false,
    }
}

/// The token at hand after a link that asks for an upload: the one that came with it, unless it is
/// another user's, or else the one from before.
pub open spec fn token_after(current: Option<Seq<char>>, incoming: Option<Seq<char>>) -> Option<Seq<char>> {
    if incoming is None || other_user(current, incoming) {
        current
    } else {
        incoming
    }
}

/// The token that goes into the keyring, if any does.
pub open spec fn token_to_keep(current: Option<Seq<char>>, incoming: Option<Seq<char>>) -> Option<Seq<char>> {
    if other_user(current, incoming) {
        None
    } else {
        incoming
    }
}

/// What is done about a link that asks for an upload, when this token is at hand.
pub open spec fn upload_link(
    params: Map<Seq<char>, Seq<char>>,
    current: Option<Seq<char>>,
    r: UploadLink,
) -> bool {
    let incoming = looked_up(params, "token"@);
    if other_user(current, incoming) {
        r is Mismatch
    } else if incoming is None && current is None {
        r is Login
    } else {
        match looked_up(params, "project_id"@) {
            None => r is NoProject,
            Some(project_id) => r matches UploadLink::Begin(p) && p@ == (ParamsView {
                project_id,
                folder_id: looked_up(params, "folder_id"@),
                asset_type_id: looked_up(params, "asset_type_id"@),
                count: files_asked(params),
                token: incoming,
            }),
        }
    }
}

/// What is done outside about a link that asks for an upload.
pub open spec fn upload_link_effects(r: UploadLink) -> Seq<Effect<Seq<char>>> {
    match r {
        UploadLink::Mismatch => seq![Effect::Emit(Notice::UserMismatch)],
        UploadLink::Begin(_) => seq![Effect::ShowWindow],
        _ => Seq::empty(),
    }
}

/// What is said of a link that does not say to which project.
pub fn no_project_text() -> (r: String)
    ensures
        r@ == "Missing project_id parameter"@,
{
    "Missing project_id parameter".to_string()
}

fn is_other_user(current: &Option<String>, incoming: &Option<String>) -> (r: bool)
    ensures
        r == other_user(opt(*current), opt(*incoming)),
{
    match (current, incoming) {
        (Some(current), Some(incoming)) => {
            let a = get_user_id_from_token(current);
            let b = get_user_id_from_token(incoming);
            a.is_some() && b.is_some() && !same_opt(&a, &b)
        },
        _ => false,
    }
}

fn asked_count(params: &TextMap) -> (r: u32)
    ensures
        r == files_asked(params@),
{
    let folder = match params.get("mode") {
        Some(mode) => same(&mode, "folder"),
        None => false,
    };
    if folder {
        return 0;
    }
    match params.get("count") {
        Some(text) => match parse_number(&text) {
            Some(n) => n,
            None => 1,
        },
        None => 1,
    }
}

/// Decides about a link that asks for an upload. The second result is the token that is to be put
/// into the keyring, if any is; where that fails, it is still at hand. `keyring` is what the keyring
/// holds.
pub fn handle_upload(
    cache: &mut TokenCache,
    params: &TextMap,
    keyring: &Option<String>,
    out: &mut Vec<Effect<String>>,
) -> (r: (UploadLink, Option<String>))
    ensures
        ({
            let current = loaded(old(cache)@, opt(*keyring));
            let incoming = looked_up(params@, "token"@);
            &&& upload_link(params@, current, r.0)
            &&& opt(r.1) == token_to_keep(current, incoming)
            &&& final(cache)@ == token_after(current, incoming)
            &&& sent(final(out)@) == sent(old(out)@) + upload_link_effects(r.0)
        }),
{
    let token = link_token(params);
    let current = load_token(cache, keyring);
    if is_other_user(&current, &token) {
        send(out, Effect::Emit(Notice::UserMismatch));
        return (UploadLink::Mismatch, None);
    }
    match &token {
        Some(t) => {
            let kept: Result<(), KeyringFault> = Ok(());
            let _ = save_token(cache, t, &kept);
        },
        None => {
            if current.is_none() {
                return (UploadLink::Login, None);
            }
        },
    }
    let project_id = match params.get("project_id") {
        Some(id) => id,
        None => {
            return (UploadLink::NoProject, token);
        },
    };
    let folder_id = params.get("folder_id");
    let asset_type_id = params.get("asset_type_id");
    let count: u32 = asked_count(params);
    send(out, Effect::ShowWindow);
    (
        UploadLink::Begin(UploadParams { project_id, folder_id, asset_type_id, count, token: copy_opt(&token) }),
        token,
    )
}

/// A link never takes over the session of another user: where the users of both tokens are known and
/// are not the same, nothing is begun and the token at hand stays.
pub proof fn law_link_respects_the_user(
    params: Map<Seq<char>, Seq<char>>,
    current: Seq<char>,
    incoming: Seq<char>,
    r: UploadLink,
)
    requires
        looked_up(params, "token"@) == Some(incoming),
        user_of(current) is Some,
        user_of(incoming) is Some,
        user_of(current) != user_of(incoming),
        upload_link(params, Some(current), r),
    ensures
        !(r is Begin),
        token_after(Some(current), Some(incoming)) == Some(current),
        token_to_keep(Some(current), Some(incoming)) is None,
{
}

/// An upload begins only where somebody is logged in by then.
pub proof fn law_upload_needs_a_login(
    params: Map<Seq<char>, Seq<char>>,
    current: Option<Seq<char>>,
    r: UploadLink,
)
    requires
        upload_link(params, current, r),
        r is Begin,
    ensures
        token_after(current, looked_up(params, "token"@)) is Some,
{
}

/// A link asks for an upload or for a login by its host, and its parameters are those of its query, the last
/// where two bear the same name; any other host, or none, asks for nothing that is known.
pub proof fn law_what_a_link_asks(host: Option<Seq<char>>, query: Seq<(Seq<char>, Seq<char>)>)
    ensures
        host == Some("upload"@) <==> link_of(host, query) is Upload,
        host == Some("auth"@) <==> link_of(host, query) is Auth,
        host == Some("upload"@) ==> link_of(host, query)->Upload_0 == pair_map(query),
        host == Some("auth"@) ==> link_of(host, query)->Auth_0 == pair_map(query),
{
    reveal_strlit("upload");
    reveal_strlit("auth");
    assert("upload"@.len() == 6 && "auth"@.len() == 4);
}

/// A text that is no address is refused with the fault, and any other is read as a link.
pub proof fn law_links_are_read(text: Seq<char>)
    ensures
        parsed_url(text) is Err ==> asked(text) == Err::<LinkView, Seq<char>>(
            "Invalid URL: "@ + parsed_url(text)->Err_0,
        ),
        parsed_url(text) is Ok ==> asked(text) == Ok::<LinkView, Seq<char>>(
            link_of(parsed_url(text)->Ok_0.host, parsed_url(text)->Ok_0.query),
        ),
{
}

/// A number is read from its digits, with a plus before them or without; what holds no digit, or anything
/// else than digits, or is too large, is no number.
pub proof fn law_numbers_are_read(n: u32, text: Seq<char>, i: int)
    ensures
        number_of(decimal(n as nat)) == Some(n),
        number_of(seq!['+'] + decimal(n as nat)) == Some(n),
        number_of(Seq::empty()) is None,
        number_of(seq!['+']) is None,
        1 <= i < text.len() && !('0' <= text[i] <= '9') ==> number_of(text) is None,
        text.len() > 0 && !('0' <= text[0] <= '9') && text[0] != '+' ==> number_of(text) is None,
{
    lemma_value_of_decimal(n as nat);
    law_decimal(n as nat);
    let digits = decimal(n as nat);
    assert('0' <= digits[0] <= '9');
    assert((seq!['+'] + digits).skip(1) =~= digits);
    assert(seq!['+'].skip(1).len() == 0);
    if 1 <= i < text.len() && !('0' <= text[i] <= '9') {
        let rest = unsigned_digits(text);
        if text[0] == '+' {
            assert(rest[i - 1] == text[i]);
        } else {
            assert(rest[i] == text[i]);
        }
    }
    if text.len() > 0 && !('0' <= text[0] <= '9') && text[0] != '+' {
        assert(unsigned_digits(text)[0] == text[0]);
    }
}

/// The digits of a number have its value.
pub proof fn lemma_value_of_decimal(n: nat)
    ensures
        digits_value(decimal(n)) == n,
    decreases n,
{
    law_decimal(n);
    if n >= 10 {
        lemma_value_of_decimal(n / 10);
    } else {
        assert(decimal(n).drop_last().len() == 0);
        assert(digits_value(decimal(n).drop_last()) == 0);
    }
}

/// A number that is too large for the count is none, whatever its digits.
pub proof fn law_large_numbers_are_refused(n: nat)
    requires
        n > u32::MAX,
    ensures
        number_of(decimal(n)) is None,
{
    lemma_value_of_decimal(n);
    law_decimal(n);
    assert('0' <= decimal(n)[0] <= '9');
}

/// A link that asks for a folder asks for no files; any other for as many as it says, and for one where it
/// does not say a number.
pub proof fn law_how_many_files(params: Map<Seq<char>, Seq<char>>, n: u32)
    ensures
        ({
            let folder = params.contains_key("mode"@) && params["mode"@] == "folder"@;
            &&& folder ==> files_asked(params) == 0
            &&& !folder && params.contains_key("count"@) && params["count"@] == decimal(n as nat) ==> files_asked(params)
                == n
            &&& !folder && params.contains_key("count"@) && number_of(params["count"@]) is Some ==> files_asked(params)
                == number_of(params["count"@])->0
            &&& !folder && params.contains_key("count"@) && number_of(params["count"@]) is None ==> files_asked(params)
                == 1
            &&& !folder && !params.contains_key("count"@) ==> files_asked(params) == 1
        }),
{
    law_numbers_are_read(n, Seq::empty(), 0);
}

/// What is done about a link that asks for an upload. Two users are told apart only where both tokens name
/// one: then nothing is begun and no token changes. Otherwise the token that came with the link is taken and
/// kept, the user has to log in where there is none at all, and the upload begins with what the link says.
pub proof fn law_upload_link(
    params: Map<Seq<char>, Seq<char>>,
    current: Option<Seq<char>>,
    r: UploadLink,
)
    requires
        upload_link(params, current, r),
    ensures
        ({
            let incoming = if params.contains_key("token"@) {
                Some(params["token"@])
            } else {
                None
            };
            let clash = current is Some && incoming is Some && user_of(current->0) is Some && user_of(incoming->0)
                is Some && user_of(current->0)->0 != user_of(incoming->0)->0;
            let project = params.contains_key("project_id"@);
            &&& r is Mismatch <==> clash
            &&& r is Login <==> current is None && incoming is None
            &&& r is NoProject <==> !clash && (current is Some || incoming is Some) && !project
            &&& r is Begin <==> !clash && (current is Some || incoming is Some) && project
            &&& clash ==> token_after(current, incoming) == current && token_to_keep(current, incoming) is None
            &&& !clash && incoming is Some ==> token_after(current, incoming) == incoming && token_to_keep(
                current,
                incoming,
            ) == incoming
            &&& incoming is None ==> token_after(current, incoming) == current && token_to_keep(current, incoming)
                is None
            &&& r matches UploadLink::Begin(p) ==> {
                &&& p.project_id@ == params["project_id"@]
                &&& p.folder_id is Some <==> params.contains_key("folder_id"@)
                &&& p.folder_id is Some ==> p.folder_id->0@ == params["folder_id"@]
                &&& p.asset_type_id is Some <==> params.contains_key("asset_type_id"@)
                &&& p.asset_type_id is Some ==> p.asset_type_id->0@ == params["asset_type_id"@]
                &&& p.token is Some <==> incoming is Some
                &&& p.token is Some ==> p.token->0@ == params["token"@]
                &&& p.count == files_asked(params)
            }
        }),
{
}

/// The window is shown where an upload begins, hears where the users are not the same, and nothing is done
/// outside otherwise.
pub proof fn law_upload_link_is_told(r: UploadLink)
    ensures
        r is Mismatch ==> upload_link_effects(r).len() == 1 && upload_link_effects(r)[0] == Effect::Emit(
            Notice::<Seq<char>>::UserMismatch,
        ),
        r is Begin ==> upload_link_effects(r).len() == 1 && upload_link_effects(r)[0] == Effect::<
            Seq<char>,
        >::ShowWindow,
        r is Login || r is NoProject ==> upload_link_effects(r).len() == 0,
{
}

/// A number is read digit by digit: one digit has its own value, and with each further digit the number is
/// ten times as large and that digit more, as long as it is not too large. A plus before the first digit
/// changes nothing.
pub proof fn law_numbers_digit_by_digit(text: Seq<char>, d: char)
    requires
        '0' <= d <= '9',
    ensures
        number_of(seq![d]) == Some((d as int - '0' as int) as u32),
        number_of(text) is Some ==> ({
            let more = number_of(text)->0 * 10 + (d as int - '0' as int);
            &&& more <= u32::MAX ==> number_of(text.push(d)) == Some(more as u32)
            &&& more > u32::MAX ==> number_of(text.push(d)) is None
        }),
        number_of(text) is None && text.len() > 0 && text != seq!['+'] ==> number_of(text.push(d)) is None,
        text.len() > 0 && text[0] != '+' ==> number_of(seq!['+'] + text) == number_of(text),
{
    let one = seq![d];
    assert(unsigned_digits(one) == one);
    assert(one.drop_last().len() == 0);
    assert(digits_value(one.drop_last()) == 0);
    assert(digits_value(one) == d as nat - 48);
    if text.len() > 0 && text != seq!['+'] {
        let digits = unsigned_digits(text);
        let longer = unsigned_digits(text.push(d));
        if text[0] == '+' {
            assert(digits.len() > 0) by {
                if text.len() == 1 {
                    assert(text =~= seq!['+']);
                }
            }
        }
        assert(longer =~= digits.push(d));
        assert(longer.drop_last() =~= digits);
        assert(digits_value(longer) == digits_value(digits) * 10 + (d as nat - 48));
        if forall|i: int| 0 <= i < digits.len() ==> is_digit(#[trigger] digits[i]) {
            assert forall|i: int| 0 <= i < longer.len() implies is_digit(#[trigger] longer[i]) by {
                if i < digits.len() {
                    assert(longer[i] == digits[i]);
                }
            }
        } else {
            let i = choose|i: int| 0 <= i < digits.len() && !is_digit(#[trigger] digits[i]);
            assert(longer[i] == digits[i]);
        }
    }
    if text.len() > 0 && text[0] != '+' {
        assert((seq!['+'] + text).skip(1) =~= text);
    }
}

/// A link is told by its kind and its parameters.
pub proof fn law_link_is_what_it_holds(link: Link)
    ensures
        link is Upload <==> link@ is Upload,
        link is Auth <==> link@ is Auth,
        link matches Link::Upload(params) ==> link@->Upload_0 == params@,
        link matches Link::Auth(params) ==> link@->Auth_0 == params@,
{
}

} // verus!
