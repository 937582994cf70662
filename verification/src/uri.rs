//! Locating an S3 object from an `s3://bucket/key` URI.

use vstd::prelude::*;

verus! {

/// The parts of a parsed URL from which an S3 location is read.
pub struct UrlParts {
    /// The scheme, without the `:` delimiter.
    pub scheme: String,
    /// The host, where the URL has one.
    pub host: Option<String>,
    /// The path, as the URL parser serialises it.
    pub path: String,
}

/// The view of an optional string.
pub open spec fn opt_string_view(o: Option<String>) -> Option<Seq<char>> {
    match o {
        Some(s) => Some(s@),
        None => None,
    }
}

impl View for UrlParts {
    type V = (Seq<char>, Option<Seq<char>>, Seq<char>);

    open spec fn view(&self) -> Self::V {
        (self.scheme@, opt_string_view(self.host), self.path@)
    }
}

/// The view of a URL parse: its parts, or the parser's error message.
pub open spec fn parsed_view(r: Result<UrlParts, String>) -> Result<
    (Seq<char>, Option<Seq<char>>, Seq<char>),
    Seq<char>,
> {
    match r {
        Ok(p) => Ok(p@),
        Err(m) => Err(m@),
    }
}

/// What `url::Url::parse` makes of a string: the scheme, host and path of the
/// URL, or the text of the parse error.
pub uninterp spec fn url_parse(input: Seq<char>) -> Result<
    (Seq<char>, Option<Seq<char>>, Seq<char>),
    Seq<char>,
>;

/// Parses `input` with `url::Url::parse` and reads back `Url::scheme`,
/// `Url::host_str` and `Url::path`, or renders the `url::ParseError`.
/// Trusted: the result is what `url_parse` names for `input`, a function of
/// the input alone; nothing more is claimed of the URL grammar.
#[verifier::external_body]
fn parse_url(input: &str) -> (res: Result<UrlParts, String>)
    ensures
        parsed_view(res) == url_parse(input@),
{
    match url::Url::parse(input) {
        Ok(url) => Ok(
            UrlParts {
                scheme: url.scheme().to_string(),
                host: url.host_str().map(String::from),
                path: url.path().to_string(),
            },
        ),
        Err(e) => Err(e.to_string()),
    }
}

/// The kind of a failure, in the terms of `std::io::ErrorKind`.
#[derive(Debug, Clone, Copy, PartialEq, Eq, Structural)]
pub enum ErrorKind {
    /// The caller passed an argument that cannot be used.
    InvalidInput,
    /// Any other failure.
    Other,
}

/// Why a string does not name an S3 object.
#[derive(Debug)]
pub enum S3UriError {
    /// The string is not a URL; holds the URL parser's message.
    InvalidUri(String),
    /// The URL's scheme is not `s3`; holds that scheme.
    WrongScheme(String),
    /// The URL has no host, so no bucket.
    MissingBucket,
}

/// The view of [`S3UriError`].
pub enum UriFault {
    InvalidUri(Seq<char>),
    WrongScheme(Seq<char>),
    MissingBucket,
}

impl View for S3UriError {
    type V = UriFault;

    open spec fn view(&self) -> UriFault {
        match self {
            S3UriError::InvalidUri(m) => UriFault::InvalidUri(m@),
            S3UriError::WrongScheme(s) => UriFault::WrongScheme(s@),
            S3UriError::MissingBucket => UriFault::MissingBucket,
        }
    }
}

/// The text that describes each fault.
pub open spec fn uri_fault_message(f: UriFault) -> Seq<char> {
    match f {
        UriFault::InvalidUri(m) => "Invalid S3 URI: "@ + m,
        UriFault::WrongScheme(s) => "Expected s3:// URI, got: "@ + s,
        UriFault::MissingBucket => "S3 URI missing bucket name"@,
    }
}

impl S3UriError {
    /// Every URI fault is a fault of the caller's input.
    pub fn kind(&self) -> (k: ErrorKind)
        ensures
            k == ErrorKind::InvalidInput,
    {
        ErrorKind::InvalidInput
    }

    /// The human-readable description of the fault.
    pub fn to_string(&self) -> (s: String)
        ensures
            s@ == uri_fault_message(self@),
    {
        match self {
            S3UriError::InvalidUri(m) => String::from_str("Invalid S3 URI: ").concat(m.as_str()),
            S3UriError::WrongScheme(s) => String::from_str("Expected s3:// URI, got: ").concat(
                s.as_str(),
            ),
            S3UriError::MissingBucket => String::from_str("S3 URI missing bucket name"),
        }
    }
}

/// `s` without its leading `/` characters.
pub open spec fn trim_leading_slashes(s: Seq<char>) -> Seq<char>
    decreases s.len(),
{
    if s.len() > 0 && s[0] == '/' {
        trim_leading_slashes(s.drop_first())
    } else {
        s
    }
}

/// The (bucket, key) that a parsed URL names, or why it names none.
pub open spec fn s3_location(parsed: Result<(Seq<char>, Option<Seq<char>>, Seq<char>), Seq<char>>) -> Result<
    (Seq<char>, Seq<char>),
    UriFault,
> {
    match parsed {
        Err(msg) => Err(UriFault::InvalidUri(msg)),
        Ok((scheme, host, path)) => if scheme != seq!['s', '3'] {
            Err(UriFault::WrongScheme(scheme))
        } else {
            match host {
                None => Err(UriFault::MissingBucket),
                Some(bucket) => Ok((bucket, trim_leading_slashes(path))),
            }
        },
    }
}

/// The view of a located object, or of the fault.
pub open spec fn location_view(r: Result<(String, String), S3UriError>) -> Result<
    (Seq<char>, Seq<char>),
    UriFault,
> {
    match r {
        Ok((b, k)) => Ok((b@, k@)),
        Err(e) => Err(e@),
    }
}

proof fn lemma_trim_skip(s: Seq<char>, i: int)
    requires
        0 <= i <= s.len(),
        forall|j: int| 0 <= j < i ==> s[j] == '/',
    ensures
        trim_leading_slashes(s) == trim_leading_slashes(s.skip(i)),
    decreases i,
{
    if i > 0 {
        lemma_trim_skip(s, i - 1);
        assert(s.skip(i - 1)[0] == '/');
        assert(s.skip(i - 1).drop_first() =~= s.skip(i));
    } else {
        assert(s.skip(0) =~= s);
    }
}

/// `s` without its leading `/` characters.
fn trim_start_slashes(s: &str) -> (r: String)
    ensures
        r@ == trim_leading_slashes(s@),
{
    let n = s.unicode_len();
    let mut i: usize = 0;
    while i < n && s.get_char(i) == '/'
        invariant
            n == s@.len(),
            i <= n,
            forall|j: int| 0 <= j < i ==> s@[j] == '/',
        decreases n - i,
    {
        i = i + 1;
    }
    proof {
        lemma_trim_skip(s@, i as int);
        assert(s@.skip(i as int) =~= s@.subrange(i as int, n as int));
    }
    s.substring_char(i, n).to_owned()
}

/// Reads the (bucket, key) of an S3 object from a parsed URL: the scheme
/// must be `s3`, the host is the bucket, and the path without its leading
/// slashes is the key.
pub fn s3_location_from_url(parsed: Result<UrlParts, String>) -> (r: Result<
    (String, String),
    S3UriError,
>)
    ensures
        location_view(r) == s3_location(parsed_view(parsed)),
{
    match parsed {
        Err(msg) => Err(S3UriError::InvalidUri(msg)),
        Ok(parts) => {
            let scheme = parts.scheme.as_str();
            let is_s3 = scheme.unicode_len() == 2 && scheme.get_char(0) == 's' && scheme.get_char(1) == '3';
            assert(is_s3 <==> parts.scheme@ == seq!['s', '3']) by {
                if is_s3 {
                    assert(parts.scheme@ =~= seq!['s', '3']);
                }
            }
            if !is_s3 {
                return Err(S3UriError::WrongScheme(parts.scheme));
            }
            match parts.host {
                None => Err(S3UriError::MissingBucket),
                Some(bucket) => {
                    let key = trim_start_slashes(parts.path.as_str());
                    Ok((bucket, key))
                },
            }
        },
    }
}

/// Parses an S3 URI of the form `s3://bucket/path/to/object` into its
/// (bucket, key) components.
pub fn parse_s3_uri(uri: &str) -> (r: Result<(String, String), S3UriError>)
    ensures
        location_view(r) == s3_location(url_parse(uri@)),
{
    let parsed = parse_url(uri);
    s3_location_from_url(parsed)
}

/// `n` slashes.
pub open spec fn slashes(n: nat) -> Seq<char> {
    Seq::new(n, |j: int| '/')
}

/// An `s3` URL names the bucket that is its whole host, and the key that is its
/// path after the leading slashes: for every host `bucket`, every number `n`
/// of leading slashes and every key that does not itself start with a slash,
/// the location of `s3://bucket` + `n` slashes + `key` is exactly
/// `(bucket, key)`. (A URI `s3://bucket/key` parses with `n` = 1.)
pub proof fn lemma_location_is_host_and_key(bucket: Seq<char>, n: nat, key: Seq<char>)
    requires
        key.len() == 0 || key[0] != '/',
    ensures
        s3_location(Ok((seq!['s', '3'], Some(bucket), slashes(n) + key))) == Ok::<
            (Seq<char>, Seq<char>),
            UriFault,
        >((bucket, key)),
{
    let path = slashes(n) + key;
    lemma_trim_skip(path, n as int);
    assert(path.skip(n as int) =~= key);
}

/// Only the `s3` scheme names an S3 location: a URL with any other scheme is
/// refused with that scheme, whatever its host and path.
pub proof fn lemma_other_schemes_refused(
    scheme: Seq<char>,
    host: Option<Seq<char>>,
    path: Seq<char>,
)
    requires
        scheme != seq!['s', '3'],
    ensures
        s3_location(Ok((scheme, host, path))) == Err::<(Seq<char>, Seq<char>), UriFault>(
            UriFault::WrongScheme(scheme),
        ),
{
}

/// An `s3` URL without a host names no bucket; a string that is not a URL is
/// refused with the URL parser's message.
pub proof fn lemma_missing_bucket_and_invalid_uri(path: Seq<char>, message: Seq<char>)
    ensures
        s3_location(Ok((seq!['s', '3'], None, path))) == Err::<(Seq<char>, Seq<char>), UriFault>(
            UriFault::MissingBucket,
        ),
        s3_location(Err(message)) == Err::<(Seq<char>, Seq<char>), UriFault>(
            UriFault::InvalidUri(message),
        ),
{
}

/// A located key never starts with a slash.
pub proof fn lemma_key_has_no_leading_slash(parsed: Result<(Seq<char>, Option<Seq<char>>, Seq<char>), Seq<char>>)
    ensures
        s3_location(parsed) is Ok ==> {
            let key = s3_location(parsed)->Ok_0.1;
            key.len() == 0 || key[0] != '/'
        },
{
    if let Ok((scheme, host, path)) = parsed {
        lemma_trim_no_slash(path);
    }
}

proof fn lemma_trim_no_slash(s: Seq<char>)
    ensures
        trim_leading_slashes(s).len() == 0 || trim_leading_slashes(s)[0] != '/',
    decreases s.len(),
{
    if s.len() > 0 && s[0] == '/' {
        lemma_trim_no_slash(s.drop_first());
    }
}

/// Every fault's message names what went wrong in the input: an invalid URI's
/// message ends with the URL parser's own message, a wrong scheme's message
/// ends with that scheme, and each message says more than that detail alone.
pub proof fn lemma_fault_messages_carry_detail(detail: Seq<char>)
    ensures
        ({
            let msg = uri_fault_message(UriFault::InvalidUri(detail));
            msg.len() > detail.len() && msg.subrange(msg.len() - detail.len(), msg.len() as int) == detail
        }),
        ({
            let msg = uri_fault_message(UriFault::WrongScheme(detail));
            msg.len() > detail.len() && msg.subrange(msg.len() - detail.len(), msg.len() as int) == detail
        }),
        uri_fault_message(UriFault::MissingBucket).len() > 0,
{
    reveal_strlit("Invalid S3 URI: ");
    reveal_strlit("Expected s3:// URI, got: ");
    reveal_strlit("S3 URI missing bucket name");
    let a = "Invalid S3 URI: "@ + detail;
    assert(a.subrange(a.len() - detail.len(), a.len() as int) =~= detail);
    let b = "Expected s3:// URI, got: "@ + detail;
    assert(b.subrange(b.len() - detail.len(), b.len() as int) =~= detail);
}

} // verus!
