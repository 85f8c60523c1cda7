use vstd::prelude::*;
use vstd::string::*;

verus! {

/// Identifying and authentication info for a Discord webhook.
pub struct DiscordWebhookAuth {
    /// Discord webhook id
    pub id: u64,
    /// Discord webhook token
    pub token: String,
}

/// Why a decimal webhook id could not be read.
#[derive(Debug, Clone, Copy, PartialEq, Eq, Structural)]
pub enum IdErrorKind {
    /// No digits at all
    Empty,
    /// A character that is not a decimal digit
    InvalidDigit,
    /// The number does not fit in 64 bits
    PosOverflow,
}

/// Error parsing a URL to get the Discord webhook auth info.
#[derive(Debug)]
pub enum DiscordWebhookAuthUrlError {
    /// Failed to parse the URL at all
    UrlParseError(url::ParseError),
    /// Url has no path
    UrlMissingPath,
    /// Url has no /api
    UrlPathMissingApi,
    /// Url has no /api/webhooks
    UrlPathMissingWebhooks,
    /// Url is missing /api/webhooks/ID
    UrlPathMissingId,
    /// Url has an invalid /api/webhooks/ID
    IdParseError(IdErrorKind),
    /// Url is missing /api/webhooks/ID/TOKEN
    UrlPathMissingToken,
}

#[verifier::external_type_specification]
#[verifier::external_body]
pub struct ExUrlParseError(url::ParseError);

/// The path of the URL that `url::Url::parse` makes of a string, if it parses.
pub uninterp spec fn parsed_url_path(s: Seq<char>) -> Option<Seq<char>>;

/// Relies on `url::Url::parse` to parse an absolute URL and on `url::Url::path`
/// for its percent-encoded path; both depend on the input text alone.
#[verifier::external_body]
fn url_path(url: &str) -> (r: Result<String, url::ParseError>)
    ensures
        r is Ok <==> parsed_url_path(url@) is Some,
        r is Ok ==> r->Ok_0@ == parsed_url_path(url@)->0,
{
    url::Url::parse(url).map(|u| u.path().to_string())
}

pub open spec fn is_digit(c: char) -> bool {
    '0' <= c && c <= '9'
}

pub open spec fn all_digits(s: Seq<char>) -> bool {
    forall|i: int| 0 <= i < s.len() ==> is_digit(#[trigger] s[i])
}

/// The number written by a string of decimal digits.
pub open spec fn digits_value(s: Seq<char>) -> nat
    decreases s.len(),
{
    if s.len() == 0 {
        0
    } else {
        digits_value(s.drop_last()) * 10 + (s.last() as nat - '0' as nat) as nat
    }
}

/// The digits of a decimal number, an optional leading `+` taken off.
pub open spec fn unsigned_digits(s: Seq<char>) -> Seq<char> {
    if s.len() > 0 && s[0] == '+' {
        s.drop_first()
    } else {
        s
    }
}

/// The 64-bit unsigned number that a decimal string denotes, or why there is none.
pub open spec fn decimal_u64(s: Seq<char>) -> Result<u64, IdErrorKind> {
    let d = unsigned_digits(s);
    if s.len() == 0 {
        Err(IdErrorKind::Empty)
    } else if d.len() == 0 || !all_digits(d) {
        Err(IdErrorKind::InvalidDigit)
    } else if digits_value(d) > u64::MAX {
        Err(IdErrorKind::PosOverflow)
    } else {
        Ok(digits_value(d) as u64)
    }
}

/// Reads a webhook id written in decimal, with an optional leading `+`.
pub fn parse_webhook_id(s: &str) -> (r: Result<u64, IdErrorKind>)
    ensures
        r == decimal_u64(s@),
{
    let n = s.unicode_len();
    if n == 0 {
        return Err(IdErrorKind::Empty);
    }
    let mut i: usize = 0;
    if s.get_char(0) == '+' {
        i = 1;
    }
    if i == n {
        return Err(IdErrorKind::InvalidDigit);
    }
    let start = i;
    let ghost d = unsigned_digits(s@);
    assert(d =~= s@.subrange(start as int, n as int));
    let mut value: u64 = 0;
    let mut overflow = false;
    while i < n
        invariant
            start <= i <= n,
            n == s@.len(),
            d == s@.subrange(start as int, n as int),
            d == unsigned_digits(s@),
            forall|j: int| start <= j < i ==> is_digit(#[trigger] s@[j]),
            !overflow ==> value == digits_value(s@.subrange(start as int, i as int)),
            overflow ==> digits_value(s@.subrange(start as int, i as int)) > u64::MAX,
        decreases n - i,
    {
        let c = s.get_char(i);
        if c < '0' || c > '9' {
            assert(!all_digits(d)) by {
                assert(d[i - start] == c);
                assert(!is_digit(d[i - start]));
            }
            assert(d.len() > 0);
            return Err(IdErrorKind::InvalidDigit);
        }
        let digit = (c as u32 - '0' as u32) as u64;
        let ghost prefix = s@.subrange(start as int, i as int);
        let ghost next = s@.subrange(start as int, i + 1);
        assert(next.drop_last() =~= prefix);
        if !overflow {
            if value > (u64::MAX - digit) / 10 {
                overflow = true;
                assert(digits_value(next) > u64::MAX) by (nonlinear_arith)
                    requires
                        digits_value(next) == value * 10 + digit,
                        value > (u64::MAX - digit) / 10,
                        digit <= 9,
                ;
            } else {
                assert(value * 10 + digit <= u64::MAX) by (nonlinear_arith)
                    requires
                        value <= (u64::MAX - digit) / 10,
                        digit <= 9,
                ;
                value = value * 10 + digit;
            }
        } else {
            assert(digits_value(next) >= digits_value(prefix)) by (nonlinear_arith)
                requires
                    digits_value(next) == digits_value(prefix) * 10 + digit,
            ;
        }
        i = i + 1;
    }
    assert(s@.subrange(start as int, i as int) =~= d);
    assert(all_digits(d)) by {
        assert forall|j: int| 0 <= j < d.len() implies is_digit(#[trigger] d[j]) by {
            assert(d[j] == s@[j + start]);
        }
    }
    if overflow {
        Err(IdErrorKind::PosOverflow)
    } else {
        Ok(value)
    }
}

/// The views of a sequence of strings.
pub open spec fn views(v: Seq<String>) -> Seq<Seq<char>> {
    v.map_values(|x: String| x@)
}

/// The pieces of `s` between its `/` separators, in order; there is always at least one.
pub open spec fn split_slash(s: Seq<char>) -> Seq<Seq<char>>
    decreases s.len(),
{
    if s.len() == 0 {
        seq![Seq::<char>::empty()]
    } else {
        let rest = split_slash(s.drop_last());
        if s.last() == '/' {
            rest.push(Seq::<char>::empty())
        } else {
            rest.update(rest.len() - 1, rest.last().push(s.last()))
        }
    }
}

/// The segments of a URL path: none unless it starts with `/`, else the pieces of the rest.
pub open spec fn path_segments_of(path: Seq<char>) -> Option<Seq<Seq<char>>> {
    if path.len() > 0 && path[0] == '/' {
        Some(split_slash(path.drop_first()))
    } else {
        None
    }
}

/// What the segments of a webhook URL path say: its id and token, or which part is wrong.
pub open spec fn webhook_auth_of(segs: Seq<Seq<char>>) -> Result<(u64, Seq<char>), DiscordWebhookAuthUrlError> {
    if segs.len() < 1 || segs[0] != "api"@ {
        Err(DiscordWebhookAuthUrlError::UrlPathMissingApi)
    } else if segs.len() < 2 || segs[1] != "webhooks"@ {
        Err(DiscordWebhookAuthUrlError::UrlPathMissingWebhooks)
    } else if segs.len() < 3 {
        Err(DiscordWebhookAuthUrlError::UrlPathMissingId)
    } else if decimal_u64(segs[2]) is Err {
        Err(DiscordWebhookAuthUrlError::IdParseError(decimal_u64(segs[2])->Err_0))
    } else if segs.len() < 4 || segs[3].len() == 0 {
        Err(DiscordWebhookAuthUrlError::UrlPathMissingToken)
    } else {
        Ok((decimal_u64(segs[2])->Ok_0, segs[3]))
    }
}

/// What a webhook URL path says.
pub open spec fn webhook_auth_from_path(path: Seq<char>) -> Result<(u64, Seq<char>), DiscordWebhookAuthUrlError> {
    match path_segments_of(path) {
        None => Err(DiscordWebhookAuthUrlError::UrlMissingPath),
        Some(segs) => webhook_auth_of(segs),
    }
}

/// `r` carries the id and token, or the error, that `s` gives.
pub open spec fn auth_matches(
    r: Result<DiscordWebhookAuth, DiscordWebhookAuthUrlError>,
    s: Result<(u64, Seq<char>), DiscordWebhookAuthUrlError>,
) -> bool {
    match r {
        Ok(a) => s is Ok && a.id == s->Ok_0.0 && a.token@ == s->Ok_0.1,
        Err(e) => s is Err && e == s->Err_0,
    }
}

/// `r` is what reading a webhook URL gives: a parse error where the URL does not
/// parse, else what its path says.
pub open spec fn from_url_outcome(url: Seq<char>, r: Result<DiscordWebhookAuth, DiscordWebhookAuthUrlError>) -> bool {
    match parsed_url_path(url) {
        None => r is Err && r->Err_0 is UrlParseError,
        Some(path) => auth_matches(r, webhook_auth_from_path(path)),
    }
}

/// Whether two strings hold the same characters.
fn same_text(a: &str, b: &str) -> (r: bool)
    ensures
        r == (a@ == b@),
{
    let n = a.unicode_len();
    if n != b.unicode_len() {
        return false;
    }
    let mut i: usize = 0;
    while i < n
        invariant
            i <= n,
            n == a@.len(),
            n == b@.len(),
            forall|j: int| 0 <= j < i ==> a@[j] == b@[j],
        decreases n - i,
    {
        if a.get_char(i) != b.get_char(i) {
            return false;
        }
        i = i + 1;
    }
    assert(a@ =~= b@);
    true
}

/// Splits a URL path into its segments, as `url::Url::path_segments` does.
pub fn path_segments(path: &str) -> (r: Option<Vec<String>>)
    ensures
        match path_segments_of(path@) {
            None => r is None,
            Some(segs) => r is Some && views(r->0@) == segs,
        },
{
    let len = path.unicode_len();
    if len == 0 || path.get_char(0) != '/' {
        return None;
    }
    let rest = path.substring_char(1, len);
    assert(rest@ =~= path@.drop_first());
    let n = len - 1;
    let mut segs: Vec<String> = Vec::new();
    let mut start: usize = 0;
    let mut i: usize = 0;
    proof {
        let e = rest@.subrange(0, 0);
        assert(e.len() == 0);
        assert(split_slash(e) == seq![Seq::<char>::empty()]);
        assert(views(segs@) =~= Seq::<Seq<char>>::empty());
        assert(e =~= Seq::<char>::empty());
        assert(views(segs@).push(e) =~= split_slash(e));
    }
    while i < n
        invariant
            start <= i <= n,
            n == rest@.len(),
            views(segs@).push(rest@.subrange(start as int, i as int)) == split_slash(
                rest@.subrange(0, i as int),
            ),
        decreases n - i,
    {
        let c = rest.get_char(i);
        let ghost prev = rest@.subrange(0, i as int);
        assert(rest@.subrange(0, i + 1).drop_last() =~= prev);
        if c == '/' {
            let piece = rest.substring_char(start, i).to_owned();
            proof {
                let e = Seq::<char>::empty();
                assert(rest@.subrange(i + 1, i + 1) =~= e);
                assert(views(segs@.push(piece)) =~= views(segs@).push(piece@));
            }
            segs.push(piece);
            start = i + 1;
        } else {
            proof {
                let vs = views(segs@).push(rest@.subrange(start as int, i as int));
                assert(rest@.subrange(start as int, i + 1) =~= rest@.subrange(start as int, i as int).push(c));
                assert(vs.update(vs.len() - 1, vs.last().push(c)) =~= views(segs@).push(
                    rest@.subrange(start as int, i + 1),
                ));
            }
        }
        i = i + 1;
    }
    let last = rest.substring_char(start, n).to_owned();
    assert(rest@.subrange(0, n as int) =~= rest@);
    assert(views(segs@.push(last)) =~= views(segs@).push(last@));
    segs.push(last);
    Some(segs)
}

impl DiscordWebhookAuth {
    /// Makes an identity from a webhook id and token.
    pub fn new(id: u64, token: String) -> (r: Self)
        ensures
            r.id == id,
            r.token == token,
    {
        Self { id, token }
    }

    /// Reads the id and token out of the path of a webhook URL,
    /// `/api/webhooks/ID/TOKEN`; segments after the token are not read.
    pub fn from_url_path(path: &str) -> (r: Result<Self, DiscordWebhookAuthUrlError>)
        ensures
            auth_matches(r, webhook_auth_from_path(path@)),
    {
        let segs = match path_segments(path) {
            None => return Err(DiscordWebhookAuthUrlError::UrlMissingPath),
            Some(segs) => segs,
        };
        let ghost vs = views(segs@);
        if segs.len() < 1 || !same_text(segs[0].as_str(), "api") {
            return Err(DiscordWebhookAuthUrlError::UrlPathMissingApi);
        }
        if segs.len() < 2 || !same_text(segs[1].as_str(), "webhooks") {
            return Err(DiscordWebhookAuthUrlError::UrlPathMissingWebhooks);
        }
        if segs.len() < 3 {
            return Err(DiscordWebhookAuthUrlError::UrlPathMissingId);
        }
        assert(vs[2] == segs@[2]@);
        let id = match parse_webhook_id(segs[2].as_str()) {
            Ok(id) => id,
            Err(kind) => return Err(DiscordWebhookAuthUrlError::IdParseError(kind)),
        };
        if segs.len() < 4 || segs[3].as_str().unicode_len() == 0 {
            return Err(DiscordWebhookAuthUrlError::UrlPathMissingToken);
        }
        assert(vs[3] == segs@[3]@);
        let token = segs[3].clone();
        Ok(Self::new(id, token))
    }

    /// Parses the relevant fields out of a Discord webhook URL,
    /// `https://discord.com/api/webhooks/ID/TOKEN`. Neither scheme nor host is checked.
    pub fn from_url(url: &str) -> (r: Result<Self, DiscordWebhookAuthUrlError>)
        ensures
            from_url_outcome(url@, r),
    {
        match url_path(url) {
            Err(e) => Err(DiscordWebhookAuthUrlError::UrlParseError(e)),
            Ok(path) => Self::from_url_path(path.as_str()),
        }
    }
}

} // verus!
