use vstd::prelude::*;

verus! {

/// The longest header name, in bytes, that [`http::HeaderName`] accepts.
pub const MAX_HEADER_NAME_LEN: usize = 65535;

/// One response header as it is kept in the store: the name as text, the
/// value as raw bytes.
#[derive(Debug)]
pub struct HeaderPairRecord {
    pub name: String,
    pub value: Vec<u8>,
}

/// A header as a mathematical value.
pub struct HeaderPair {
    pub name: Seq<char>,
    pub value: Seq<u8>,
}

impl View for HeaderPairRecord {
    type V = HeaderPair;

    open spec fn view(&self) -> HeaderPair {
        HeaderPair { name: self.name@, value: self.value@ }
    }
}

/// The headers of a list, each as a mathematical value, in the list's order.
pub open spec fn headers_view(headers: Seq<HeaderPairRecord>) -> Seq<HeaderPair> {
    headers.map_values(|h: HeaderPairRecord| h@)
}

/// A character that may stand in a header name: a letter, a digit, or one of
/// ``!#$%&'*+-.^_`|~``.
pub open spec fn is_token_char(c: char) -> bool {
    ||| 'a' <= c <= 'z'
    ||| 'A' <= c <= 'Z'
    ||| '0' <= c <= '9'
    ||| c == '!'
    ||| c == '#'
    ||| c == '$'
    ||| c == '%'
    ||| c == '&'
    ||| c == '\''
    ||| c == '*'
    ||| c == '+'
    ||| c == '-'
    ||| c == '.'
    ||| c == '^'
    ||| c == '_'
    ||| c == '`'
    ||| c == '|'
    ||| c == '~'
}

/// `c` with an upper-case ASCII letter replaced by its lower-case form.
pub open spec fn lower_char(c: char) -> char {
    if 'A' <= c <= 'Z' {
        ((c as u8) + 32) as u8 as char
    } else {
        c
    }
}

/// Whether `name` is accepted as a header name: 1 to 65535 characters, each
/// of them a token character.
pub open spec fn is_header_name(name: Seq<char>) -> bool {
    &&& 1 <= name.len() <= MAX_HEADER_NAME_LEN
    &&& forall|i: int| 0 <= i < name.len() ==> is_token_char(#[trigger] name[i])
}

/// `name` in the form in which a header name is kept: lower case.
pub open spec fn normalized_name(name: Seq<char>) -> Seq<char> {
    name.map_values(|c: char| lower_char(c))
}

/// A byte that may stand in a header value: visible ASCII, space, tab, or
/// any byte from 128 up.
pub open spec fn is_header_value_byte(b: u8) -> bool {
    (b >= 32 && b != 127) || b == 9
}

/// Whether `value` is accepted as a header value.
pub open spec fn is_header_value(value: Seq<u8>) -> bool {
    forall|i: int| 0 <= i < value.len() ==> is_header_value_byte(#[trigger] value[i])
}

/// Whether `code` is accepted as a status code.
pub open spec fn is_status_code(code: int) -> bool {
    100 <= code <= 999
}

/// Whether both parts of `h` are accepted.
pub open spec fn header_ok(h: HeaderPair) -> bool {
    is_header_name(h.name) && is_header_value(h.value)
}

/// `h` with its name in lower case.
pub open spec fn normalized_header(h: HeaderPair) -> HeaderPair {
    HeaderPair { name: normalized_name(h.name), value: h.value }
}

/// `headers`, each with its name in lower case.
pub open spec fn normalized_headers(headers: Seq<HeaderPair>) -> Seq<HeaderPair> {
    headers.map_values(|h: HeaderPair| normalized_header(h))
}

/// Whether `h` is accepted and its name is already in lower case.
pub open spec fn header_is_normal(h: HeaderPair) -> bool {
    header_ok(h) && normalized_name(h.name) == h.name
}

/// Whether `i` is the place of the first header of `headers` that is not
/// accepted.
pub open spec fn first_bad_header(headers: Seq<HeaderPair>, i: int) -> bool {
    &&& 0 <= i < headers.len()
    &&& !header_ok(headers[i])
    &&& forall|j: int| 0 <= j < i ==> header_ok(#[trigger] headers[j])
}

/// Why the parts of a response were refused.
#[derive(Debug, Clone, Copy, PartialEq, Eq, Structural)]
pub enum ResponseError {
    /// The stored status code is negative.
    StatusCodeOutOfRange,
    /// The status code is not between 100 and 999.
    InvalidStatusCode,
    /// The name of the header at `index` is not a header name.
    InvalidHeaderName { index: usize },
    /// The value of the header at `index` holds a byte that no header value
    /// may hold.
    InvalidHeaderValue { index: usize },
}

/// A response as a mathematical value.
pub struct Response {
    pub status_code: u16,
    pub headers: Seq<HeaderPair>,
    pub body: Seq<u8>,
}

/// Whether `r` is a response that can be sent: an accepted status code, and
/// accepted headers with lower-case names.
pub open spec fn is_valid_response(r: Response) -> bool {
    &&& is_status_code(r.status_code as int)
    &&& forall|i: int| 0 <= i < r.headers.len() ==> header_is_normal(#[trigger] r.headers[i])
}

/// What is answered when a status code and headers are checked, in the order
/// in which they are checked: the status code, then each header in turn, its
/// name before its value.
pub open spec fn parts_check(status_code: int, headers: Seq<HeaderPair>) -> Result<
    (),
    ResponseError,
> {
    if !is_status_code(status_code) {
        Err(ResponseError::InvalidStatusCode)
    } else if exists|i: int| first_bad_header(headers, i) {
        let i = choose|i: int| first_bad_header(headers, i);
        if !is_header_name(headers[i].name) {
            Err(ResponseError::InvalidHeaderName { index: i as usize })
        } else {
            Err(ResponseError::InvalidHeaderValue { index: i as usize })
        }
    } else {
        Ok(())
    }
}

/// The columns in which a response is kept in the store.
#[derive(Debug)]
pub struct SavedResponse {
    pub response_status_code: i16,
    pub response_headers: Vec<HeaderPairRecord>,
    pub response_body: Vec<u8>,
}

/// Stored columns as a mathematical value.
pub struct SavedColumns {
    pub status_code: i16,
    pub headers: Seq<HeaderPair>,
    pub body: Seq<u8>,
}

impl View for SavedResponse {
    type V = SavedColumns;

    open spec fn view(&self) -> SavedColumns {
        SavedColumns {
            status_code: self.response_status_code,
            headers: headers_view(self.response_headers@),
            body: self.response_body@,
        }
    }
}

/// The columns in which `r` is kept.
pub open spec fn saved_columns(r: Response) -> SavedColumns {
    SavedColumns { status_code: r.status_code as i16, headers: r.headers, body: r.body }
}

/// The response that stored columns stand for, or why they stand for none.
pub open spec fn restored(saved: SavedColumns) -> Result<Response, ResponseError> {
    if saved.status_code < 0 {
        Err(ResponseError::StatusCodeOutOfRange)
    } else {
        match parts_check(saved.status_code as int, saved.headers) {
            Err(e) => Err(e),
            Ok(_) => Ok(
                Response {
                    status_code: saved.status_code as u16,
                    headers: normalized_headers(saved.headers),
                    body: saved.body,
                },
            ),
        }
    }
}

/// Lower case is a fixed point: a name already put in lower case stays as it
/// is, and is still a header name.
pub proof fn lemma_normalized_name_is_normal(name: Seq<char>)
    requires
        is_header_name(name),
    ensures
        is_header_name(normalized_name(name)),
        normalized_name(normalized_name(name)) == normalized_name(name),
{
}

/// A valid response comes back from the store as it went in: status code,
/// headers and body are those that were kept.
pub proof fn lemma_saved_response_round_trip(r: Response)
    requires
        is_valid_response(r),
    ensures
        restored(saved_columns(r)) == Ok::<Response, ResponseError>(r),
{
    assert(normalized_headers(r.headers) =~= r.headers);
}

/// Calls [`http::StatusCode::from_u16`] and tells whether it accepted
/// `code`: it accepts the codes from 100 to 999 and no other.
#[verifier::external_body]
fn status_code_is_accepted(code: u16) -> (ok: bool)
    ensures
        ok == is_status_code(code as int),
{
    http::StatusCode::from_u16(code).is_ok()
}

/// Calls [`http::HeaderName::from_bytes`] on the bytes of `name`. It accepts
/// a name of 1 to 65535 bytes, each of them a token character, and gives it
/// back with its upper-case letters put in lower case.
#[verifier::external_body]
fn parse_header_name(name: &str) -> (parsed: Option<String>)
    ensures
        parsed is Some <==> is_header_name(name@),
        parsed matches Some(n) ==> n@ == normalized_name(name@),
{
    match http::HeaderName::from_bytes(name.as_bytes()) {
        Ok(n) => Some(n.as_str().to_owned()),
        Err(_) => None,
    }
}

/// Calls [`http::HeaderValue::from_bytes`] and tells whether it accepted
/// `value`: it accepts the values whose bytes are all 32 or more and not
/// 127, or the tab.
#[verifier::external_body]
fn header_value_is_accepted(value: &[u8]) -> (ok: bool)
    ensures
        ok == is_header_value(value@),
{
    http::HeaderValue::from_bytes(value).is_ok()
}

/// A copy of `bytes`.
pub fn copy_bytes(bytes: &Vec<u8>) -> (copy: Vec<u8>)
    ensures
        copy@ == bytes@,
{
    let mut copy: Vec<u8> = Vec::new();
    let mut i: usize = 0;
    while i < bytes.len()
        invariant
            i <= bytes.len(),
            copy@ == bytes@.take(i as int),
        decreases bytes.len() - i,
    {
        copy.push(bytes[i]);
        i += 1;
    }
    copy
}

impl HeaderPairRecord {
    /// A copy of this header.
    pub fn duplicate(&self) -> (copy: HeaderPairRecord)
        ensures
            copy@ == self@,
    {
        HeaderPairRecord { name: self.name.clone(), value: copy_bytes(&self.value) }
    }
}

/// A copy of `headers`.
pub fn copy_headers(headers: &Vec<HeaderPairRecord>) -> (copy: Vec<HeaderPairRecord>)
    ensures
        headers_view(copy@) == headers_view(headers@),
{
    let mut copy: Vec<HeaderPairRecord> = Vec::new();
    let mut i: usize = 0;
    while i < headers.len()
        invariant
            i <= headers.len(),
            copy@.len() == i,
            forall|j: int| 0 <= j < i ==> (#[trigger] copy@[j])@ == headers@[j]@,
        decreases headers.len() - i,
    {
        copy.push(headers[i].duplicate());
        i += 1;
    }
    copy
}

impl SavedResponse {
    /// A copy of these columns.
    pub fn duplicate(&self) -> (copy: SavedResponse)
        ensures
            copy@ == self@,
    {
        SavedResponse {
            response_status_code: self.response_status_code,
            response_headers: copy_headers(&self.response_headers),
            response_body: copy_bytes(&self.response_body),
        }
    }
}

/// A response that can be sent to a client: what a handler answers, and what
/// is kept under an idempotency key to be answered again.
#[derive(Debug)]
pub struct HttpResponse {
    status_code: u16,
    headers: Vec<HeaderPairRecord>,
    body: Vec<u8>,
}

impl View for HttpResponse {
    type V = Response;

    closed spec fn view(&self) -> Response {
        Response {
            status_code: self.status_code,
            headers: headers_view(self.headers@),
            body: self.body@,
        }
    }
}

impl HttpResponse {
    #[verifier::type_invariant]
    spec fn inv(self) -> bool {
        is_valid_response(self@)
    }

    /// Builds a response from its parts. The status code is checked first,
    /// then each header in turn, its name before its value; the first part
    /// that is refused is reported. Header names are put in lower case.
    pub fn new(status_code: u16, headers: Vec<HeaderPairRecord>, body: Vec<u8>) -> (res: Result<
        HttpResponse,
        ResponseError,
    >)
        ensures
            res is Ok <==> parts_check(status_code as int, headers_view(headers@)) is Ok,
            res matches Ok(r) ==> r@ == (Response {
                status_code,
                headers: normalized_headers(headers_view(headers@)),
                body: body@,
            }) && is_valid_response(r@),
            res matches Err(e) ==> parts_check(status_code as int, headers_view(headers@)) == Err::<
                (),
                ResponseError,
            >(e),
    {
        let ghost given = headers_view(headers@);
        if !status_code_is_accepted(status_code) {
            return Err(ResponseError::InvalidStatusCode);
        }
        let mut normal: Vec<HeaderPairRecord> = Vec::new();
        let n: usize = headers.len();
        let mut i: usize = 0;
        while i < n
            invariant
                i <= n,
                n == headers.len(),
                headers_view(headers@) == given,
                is_status_code(status_code as int),
                normal@.len() == i,
                forall|j: int| 0 <= j < i ==> header_ok(#[trigger] given[j]),
                forall|j: int|
                    0 <= j < i ==> (#[trigger] normal@[j])@ == normalized_header(given[j]),
            decreases n - i,
        {
            let parsed = parse_header_name(headers[i].name.as_str());
            match parsed {
                None => {
                    proof {
                        lemma_first_bad_header_is_unique(given, i as int);
                    }
                    return Err(ResponseError::InvalidHeaderName { index: i });
                },
                Some(name) => {
                    if !header_value_is_accepted(headers[i].value.as_slice()) {
                        proof {
                            assert(first_bad_header(given, i as int));
                        }
                        return Err(ResponseError::InvalidHeaderValue { index: i });
                    }
                    let value = copy_bytes(&headers[i].value);
                    normal.push(HeaderPairRecord { name, value });
                },
            }
            i += 1;
        }
        proof {
            assert(headers_view(normal@) =~= normalized_headers(given));
            let r = Response { status_code, headers: normalized_headers(given), body: body@ };
            assert forall|j: int| 0 <= j < r.headers.len() implies header_is_normal(
                #[trigger] r.headers[j],
            ) by {
                lemma_normalized_name_is_normal(given[j].name);
            }
        }
        Ok(HttpResponse { status_code, headers: normal, body })
    }

    /// A response with the given status code, without headers and body.
    pub fn status_only(status_code: u16) -> (res: Result<HttpResponse, ResponseError>)
        ensures
            is_status_code(status_code as int) ==> (res matches Ok(r) && r@ == Response {
                status_code,
                headers: Seq::empty(),
                body: Seq::empty(),
            }),
            !is_status_code(status_code as int) ==> res == Err::<HttpResponse, ResponseError>(
                ResponseError::InvalidStatusCode,
            ),
    {
        if !status_code_is_accepted(status_code) {
            return Err(ResponseError::InvalidStatusCode);
        }
        let r = HttpResponse { status_code, headers: Vec::new(), body: Vec::new() };
        proof {
            assert(r@.headers =~= Seq::empty());
        }
        Ok(r)
    }

    /// This response with one more header at the end. The name is checked
    /// before the value, and put in lower case.
    pub fn with_header(self, name: &str, value: &[u8]) -> (res: Result<HttpResponse, ResponseError>)
        ensures
            header_ok(HeaderPair { name: name@, value: value@ }) ==> (res matches Ok(r) && r@
                == Response {
                headers: self@.headers.push(
                    normalized_header(HeaderPair { name: name@, value: value@ }),
                ),
                ..self@
            }),
            !is_header_name(name@) ==> res == Err::<HttpResponse, ResponseError>(
                ResponseError::InvalidHeaderName { index: self@.headers.len() as usize },
            ),
            is_header_name(name@) && !is_header_value(value@) ==> res == Err::<
                HttpResponse,
                ResponseError,
            >(ResponseError::InvalidHeaderValue { index: self@.headers.len() as usize }),
    {
        proof {
            use_type_invariant(&self);
        }
        let ghost before = self@;
        let HttpResponse { status_code, headers, body } = self;
        let mut headers = headers;
        let index: usize = headers.len();
        let lower = match parse_header_name(name) {
            None => {
                return Err(ResponseError::InvalidHeaderName { index });
            },
            Some(lower) => lower,
        };
        if !header_value_is_accepted(value) {
            return Err(ResponseError::InvalidHeaderValue { index });
        }
        headers.push(HeaderPairRecord { name: lower, value: vstd::slice::slice_to_vec(value) });
        proof {
            let h = HeaderPair { name: name@, value: value@ };
            let after = headers_view(headers@);
            assert(after =~= before.headers.push(normalized_header(h)));
            lemma_normalized_name_is_normal(name@);
        }
        Ok(HttpResponse { status_code, headers, body })
    }

    /// This response with `body` as its body.
    pub fn with_body(self, body: Vec<u8>) -> (r: HttpResponse)
        ensures
            r@ == (Response { body: body@, ..self@ }),
    {
        proof {
            use_type_invariant(&self);
        }
        let HttpResponse { status_code, headers, body: _ } = self;
        HttpResponse { status_code, headers, body }
    }

    /// The response that stored columns stand for. A negative status code is
    /// refused first; the rest is checked as [`HttpResponse::new`] checks it.
    pub fn from_saved(saved: SavedResponse) -> (res: Result<HttpResponse, ResponseError>)
        ensures
            res is Ok <==> restored(saved@) is Ok,
            res matches Ok(r) ==> restored(saved@) == Ok::<Response, ResponseError>(r@),
            res matches Err(e) ==> restored(saved@) == Err::<Response, ResponseError>(e),
    {
        if saved.response_status_code < 0 {
            return Err(ResponseError::StatusCodeOutOfRange);
        }
        let status_code: u16 = saved.response_status_code as u16;
        HttpResponse::new(status_code, saved.response_headers, saved.response_body)
    }

    /// The columns in which this response is kept.
    pub fn to_saved(&self) -> (saved: SavedResponse)
        ensures
            saved@ == saved_columns(self@),
            restored(saved@) == Ok::<Response, ResponseError>(self@),
    {
        proof {
            use_type_invariant(self);
            lemma_saved_response_round_trip(self@);
        }
        SavedResponse {
            response_status_code: self.status_code as i16,
            response_headers: copy_headers(&self.headers),
            response_body: copy_bytes(&self.body),
        }
    }

    /// The status code, between 100 and 999.
    pub fn status_code(&self) -> (code: u16)
        ensures
            code == self@.status_code,
            is_status_code(code as int),
    {
        proof {
            use_type_invariant(self);
        }
        self.status_code
    }

    /// The headers, in order, with lower-case names.
    pub fn headers(&self) -> (headers: &Vec<HeaderPairRecord>)
        ensures
            headers_view(headers@) == self@.headers,
            is_valid_response(self@),
    {
        proof {
            use_type_invariant(self);
        }
        &self.headers
    }

    /// The body.
    pub fn body(&self) -> (body: &Vec<u8>)
        ensures
            body@ == self@.body,
    {
        &self.body
    }

    /// A copy of this response.
    pub fn duplicate(&self) -> (copy: HttpResponse)
        ensures
            copy@ == self@,
    {
        proof {
            use_type_invariant(self);
        }
        HttpResponse {
            status_code: self.status_code,
            headers: copy_headers(&self.headers),
            body: copy_bytes(&self.body),
        }
    }
}

/// No two places are both the first refused header.
pub proof fn lemma_first_bad_header_is_unique(headers: Seq<HeaderPair>, i: int)
    requires
        first_bad_header(headers, i),
    ensures
        (choose|k: int| first_bad_header(headers, k)) == i,
{
}

} // verus!
