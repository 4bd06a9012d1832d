//! The requests and responses of the HTTP front end, as values.

use vstd::prelude::*;
use vstd::hash_map::StringHashMap;
use vstd::string::StringExecFns;
use vstd::utf8::{decode_utf8, encode_utf8, is_char_boundary, valid_utf8};
use crate::text::{
    chars_of, decimal_text, has_char, lemma_split_at_separator, lemma_split_has_a_piece,
    parse_usize, parse_usize_spec, pieces, push_char, push_decimal_text, push_unsigned_text, split,
    split_at_each, str_eq, string_from_utf8, string_of, to_uppercase, trim, trimmed, uppercase,
};

verus! {

/// The status of a response.
#[derive(Clone, Copy, Debug, PartialEq, Eq, Structural)]
pub struct HttpResponseCode {
    pub code: i32,
}

impl HttpResponseCode {
    /// The reason phrase that goes with the code: `OK` for 200, `Not Found`
    /// for 404 and `Bad Request` for every other code.
    pub open spec fn reason(&self) -> Seq<char> {
        if self.code == 200 {
            "OK"@
        } else if self.code == 404 {
            "Not Found"@
        } else {
            "Bad Request"@
        }
    }

    pub fn new(code: i32) -> (status: HttpResponseCode)
        ensures
            status.code == code,
    {
        HttpResponseCode { code }
    }

    /// The reason phrase that goes with the code.
    pub fn description(&self) -> (text: String)
        ensures
            text@ == self.reason(),
    {
        if self.code == 200 {
            "OK".to_owned()
        } else if self.code == 404 {
            "Not Found".to_owned()
        } else {
            "Bad Request".to_owned()
        }
    }
}

/// A request that cannot be served, with the status to answer it with.
#[derive(Clone, Debug, PartialEq, Eq)]
pub struct HttpError {
    pub code: HttpResponseCode,
    pub message: String,
}

impl HttpError {
    /// Whether the error has this code and says this.
    pub open spec fn says(&self, code: int, message: Seq<char>) -> bool {
        self.code.code == code && self.message@ == message
    }

    pub fn new(code: i32, message: &str) -> (error: HttpError)
        ensures
            error.code.code == code,
            error.message@ == message@,
    {
        HttpError { code: HttpResponseCode::new(code), message: message.to_owned() }
    }

    /// The message of the error.
    pub fn to_string(&self) -> (text: String)
        ensures
            text@ == self.message@,
    {
        self.message.clone()
    }
}

/// The method of a request.
#[derive(Clone, Copy, Debug, PartialEq, Eq, Structural)]
pub enum HttpMethod {
    GET,
    POST,
    PUT,
    PATCH,
    DELETE,
}

impl HttpMethod {
    /// The method of this name, in upper case.
    pub open spec fn named(name: Seq<char>) -> Option<HttpMethod> {
        if name == "GET"@ {
            Some(HttpMethod::GET)
        } else if name == "POST"@ {
            Some(HttpMethod::POST)
        } else if name == "PUT"@ {
            Some(HttpMethod::PUT)
        } else if name == "PATCH"@ {
            Some(HttpMethod::PATCH)
        } else if name == "DELETE"@ {
            Some(HttpMethod::DELETE)
        } else {
            None
        }
    }

    /// Reads the name of a method, in upper or lower case. Any other name is
    /// refused with status 405.
    pub fn from_str(s: &str) -> (result: Result<HttpMethod, HttpError>)
        ensures
            match Self::named(uppercase(s@)) {
                Some(method) => result == Ok::<HttpMethod, HttpError>(method),
                None => result is Err && result->Err_0.says(405, "Invalid method"@),
            },
    {
        method_named(to_uppercase(s).as_str())
    }
}

/// The method whose name, in upper case, is `upper`. Any other name is
/// refused with status 405.
pub fn method_named(upper: &str) -> (result: Result<HttpMethod, HttpError>)
    ensures
        match HttpMethod::named(upper@) {
            Some(method) => result == Ok::<HttpMethod, HttpError>(method),
            None => result is Err && result->Err_0.says(405, "Invalid method"@),
        },
{
    if str_eq(upper, "GET") {
        Ok(HttpMethod::GET)
    } else if str_eq(upper, "POST") {
        Ok(HttpMethod::POST)
    } else if str_eq(upper, "PUT") {
        Ok(HttpMethod::PUT)
    } else if str_eq(upper, "PATCH") {
        Ok(HttpMethod::PATCH)
    } else if str_eq(upper, "DELETE") {
        Ok(HttpMethod::DELETE)
    } else {
        Err(HttpError::new(405, "Invalid method"))
    }
}

/// A request, as it was read.
pub struct HttpRequest {
    pub method: HttpMethod,
    pub path: String,
    pub http_version: String,
    pub headers: StringHashMap<String>,
    pub query_params: StringHashMap<String>,
    pub content: Option<String>,
}

/// A request as a mathematical value.
pub struct HttpRequestView {
    pub method: HttpMethod,
    pub path: Seq<char>,
    pub http_version: Seq<char>,
    pub headers: Map<Seq<char>, Seq<char>>,
    pub query_params: Map<Seq<char>, Seq<char>>,
    pub content: Option<Seq<char>>,
}

/// The texts that a map of strings holds.
pub open spec fn texts(map: Map<Seq<char>, String>) -> Map<Seq<char>, Seq<char>> {
    Map::new(|key: Seq<char>| map.contains_key(key), |key: Seq<char>| map[key]@)
}

impl View for HttpRequest {
    type V = HttpRequestView;

    open spec fn view(&self) -> HttpRequestView {
        HttpRequestView {
            method: self.method,
            path: self.path@,
            http_version: self.http_version@,
            headers: texts(self.headers@),
            query_params: texts(self.query_params@),
            content: match self.content {
                Some(content) => Some(content@),
                None => None,
            },
        }
    }
}

/// The names and values that `items` give, each as `name`, `sep`, `value`.
/// An item without `sep` gives none; what follows a second `sep` in an item
/// is left out; names and values lose the white space at their ends; of two
/// items with one name the later counts.
pub open spec fn pairs_in(items: Seq<Seq<char>>, sep: char) -> Map<Seq<char>, Seq<char>>
    decreases items.len(),
{
    if items.len() == 0 {
        Map::empty()
    } else {
        let before = pairs_in(items.drop_last(), sep);
        let item = items.last();
        if item.contains(sep) {
            before.insert(trim(split(item, sep)[0]), trim(split(item, sep)[1]))
        } else {
            before
        }
    }
}

/// How many of `lines`, from the first on, hold `c`.
pub open spec fn leading_with(lines: Seq<Seq<char>>, c: char) -> nat
    decreases lines.len(),
{
    if lines.len() > 0 && lines[0].contains(c) {
        1 + leading_with(lines.skip(1), c)
    } else {
        0
    }
}

/// The headers of a request: the lines after the first, as far as they hold
/// a colon.
pub open spec fn headers_in(lines: Seq<Seq<char>>) -> Map<Seq<char>, Seq<char>> {
    pairs_in(lines.skip(1).take(leading_with(lines.skip(1), ':') as int), ':')
}

/// The parameters of the query in `url`: what follows its first `?`, up to a
/// second one, split at `&`.
pub open spec fn query_in(url: Seq<char>) -> Map<Seq<char>, Seq<char>> {
    if split(url, '?').len() > 1 {
        pairs_in(split(split(url, '?')[1], '&'), '=')
    } else {
        Map::empty()
    }
}

/// The length that the headers give for the content: zero without the
/// header `Content-Length`, and none where it holds no number.
pub open spec fn content_length_in(headers: Map<Seq<char>, Seq<char>>) -> Option<usize> {
    if headers.contains_key("Content-Length"@) {
        parse_usize_spec(headers["Content-Length"@])
    } else {
        Some(0)
    }
}

/// The request that `bytes` hold, or the status and the words to refuse them
/// with. The first line is the method, the target and the version, with one
/// space between them; the lines that follow, as far as they hold a colon,
/// are the headers. With a `Content-Length` above zero the content is what
/// follows that many bytes of the request.
pub open spec fn parsed_request(bytes: Seq<u8>) -> Result<HttpRequestView, (int, Seq<char>)> {
    if !valid_utf8(bytes) {
        Err((400, "Request content unreadable"@))
    } else {
        let lines = split(decode_utf8(bytes), '\n');
        let first = split(lines[0], ' ');
        let headers = headers_in(lines);
        match HttpMethod::named(uppercase(first[0])) {
            None => Err((400, "Invalid method"@)),
            Some(method) => if first.len() < 3 {
                Err((400, "Malformed request line"@))
            } else {
                match content_length_in(headers) {
                    None => Err((400, "Invalid content length"@)),
                    Some(length) => if length > 0 && !is_char_boundary(bytes, length as int) {
                        Err((400, "Invalid content length"@))
                    } else {
                        Ok(
                            HttpRequestView {
                                method,
                                path: split(first[1], '?')[0],
                                http_version: first[2],
                                headers,
                                query_params: query_in(first[1]),
                                content: if length > 0 {
                                    Some(decode_utf8(bytes.subrange(length as int, bytes.len() as int)))
                                } else {
                                    None
                                },
                            },
                        )
                    },
                }
            },
        }
    }
}

/// Reads the names and values that `items` give into a map.
fn read_pairs(items: &Vec<Vec<char>>, from: usize, to: usize, sep: char) -> (map: StringHashMap<
    String,
>)
    requires
        from <= to <= items.len(),
    ensures
        texts(map@) == pairs_in(pieces(items@).subrange(from as int, to as int), sep),
{
    let mut map: StringHashMap<String> = StringHashMap::new();
    let ghost all = pieces(items@);
    let mut i: usize = from;
    assert(all.subrange(from as int, from as int) == Seq::<Seq<char>>::empty());
    assert(texts(map@) == Map::<Seq<char>, Seq<char>>::empty());
    while i < to
        invariant
            from <= i <= to <= items.len(),
            all == pieces(items@),
            texts(map@) == pairs_in(all.subrange(from as int, i as int), sep),
        decreases to - i,
    {
        let item = &items[i];
        assert(all.subrange(from as int, i + 1).drop_last() == all.subrange(from as int, i as int));
        assert(all.subrange(from as int, i + 1).last() == item@);
        if has_char(item, sep) {
            let parts = split_at_each(item, sep);
            proof {
                lemma_split_at_separator(item@, sep);
                assert(pieces(parts@).len() == parts.len());
                assert(pieces(parts@)[0] == parts@[0]@);
                assert(pieces(parts@)[1] == parts@[1]@);
            }
            let key = string_of(&trimmed(&parts[0]));
            let value = string_of(&trimmed(&parts[1]));
            let ghost before = map@;
            map.insert(key, value);
            assert(texts(map@) == texts(before).insert(key@, value@));
        }
        i += 1;
    }
    map
}

impl HttpRequest {
    /// Reads a request from the bytes that were received.
    pub fn read(bytes: Vec<u8>) -> (result: Result<HttpRequest, HttpError>)
        ensures
            match parsed_request(bytes@) {
                Ok(request) => result is Ok && result->Ok_0@ == request,
                Err((code, message)) => result is Err && result->Err_0.says(code, message),
            },
    {
        let ghost raw = bytes@;
        let request_data = match string_from_utf8(bytes) {
            Some(text) => text,
            None => { return Err(HttpError::new(400, "Request content unreadable")); },
        };
        proof {
            vstd::utf8::decode_utf8_encode_utf8(raw);
        }
        let chars = chars_of(request_data.as_str());
        let lines = split_at_each(&chars, '\n');
        proof {
            lemma_split_has_a_piece(chars@, '\n');
            assert(pieces(lines@).len() == lines.len());
            assert(pieces(lines@)[0] == lines@[0]@);
        }
        let first = split_at_each(&lines[0], ' ');
        proof {
            lemma_split_has_a_piece(lines@[0]@, ' ');
            assert(pieces(first@).len() == first.len());
            assert(pieces(first@)[0] == first@[0]@);
        }
        let method = match HttpMethod::from_str(string_of(&first[0]).as_str()) {
            Ok(method) => method,
            Err(_) => { return Err(HttpError::new(400, "Invalid method")); },
        };
        if first.len() < 3 {
            return Err(HttpError::new(400, "Malformed request line"));
        }
        assert(pieces(first@)[1] == first@[1]@);
        assert(pieces(first@)[2] == first@[2]@);
        let url = split_at_each(&first[1], '?');
        proof {
            lemma_split_has_a_piece(first@[1]@, '?');
            assert(pieces(url@).len() == url.len());
            assert(pieces(url@)[0] == url@[0]@);
        }
        let path = string_of(&url[0]);
        let query_params = if url.len() > 1 {
            assert(pieces(url@)[1] == url@[1]@);
            let pairs = split_at_each(&url[1], '&');
            assert(pieces(pairs@).subrange(0, pairs.len() as int) == pieces(pairs@));
            read_pairs(&pairs, 0, pairs.len(), '=')
        } else {
            let empty: StringHashMap<String> = StringHashMap::new();
            assert(texts(empty@) == Map::<Seq<char>, Seq<char>>::empty());
            empty
        };
        let http_version = string_of(&first[2]);
        let mut end: usize = 1;
        assert(pieces(lines@).skip(1).skip(0) == pieces(lines@).skip(1));
        while end < lines.len() && has_char(&lines[end], ':')
            invariant
                1 <= end <= lines.len(),
                leading_with(pieces(lines@).skip(1), ':') == (end - 1) + leading_with(
                    pieces(lines@).skip(1).skip(end - 1),
                    ':',
                ),
            decreases lines.len() - end,
        {
            let ghost rest = pieces(lines@).skip(1).skip(end - 1);
            assert(rest[0] == lines@[end as int]@);
            assert(rest.skip(1) == pieces(lines@).skip(1).skip(end as int));
            end += 1;
        }
        proof {
            let rest = pieces(lines@).skip(1).skip(end - 1);
            if end < lines.len() {
                assert(rest[0] == lines@[end as int]@);
            }
            assert(leading_with(pieces(lines@).skip(1), ':') == end - 1);
            assert(pieces(lines@).skip(1).take(end - 1) == pieces(lines@).subrange(1, end as int));
        }
        let headers = read_pairs(&lines, 1, end, ':');
        let content_length: usize = match headers.get("Content-Length") {
            Some(length) => {
                let digits = chars_of(length.as_str());
                match parse_usize(&digits) {
                    Some(n) => n,
                    None => { return Err(HttpError::new(400, "Invalid content length")); },
                }
            },
            None => 0,
        };
        let content: Option<String> = if content_length > 0 {
            if !request_data.as_str().is_char_boundary(content_length) {
                return Err(HttpError::new(400, "Invalid content length"));
            }
            let (_, after) = request_data.as_str().split_at(content_length);
            let content = after.to_owned();
            proof {
                vstd::utf8::encode_utf8_decode_utf8(content@);
            }
            Some(content)
        } else {
            None
        };
        Ok(HttpRequest { method, path, http_version, headers, query_params, content })
    }
}

/// A response, before it is written out.
#[derive(Clone, Debug, PartialEq, Eq)]
pub struct HttpResponse {
    pub status_code: HttpResponseCode,
    pub content: Option<String>,
    pub mime: Option<String>,
}

/// The characters of `text`, or none where there is no text.
pub open spec fn text_or_empty(text: Option<String>) -> Seq<char> {
    match text {
        Some(t) => t@,
        None => Seq::empty(),
    }
}

impl HttpResponse {
    /// The status line and the `Server` header.
    pub open spec fn head(&self) -> Seq<char> {
        "HTTP/1.1 "@ + decimal_text(self.status_code.code as int) + " "@
            + self.status_code.reason() + "\nServer:CrossPointApi"@
    }

    /// The response as it is sent. With content, the head is followed by the
    /// length of the content in bytes, its type, an empty line and the
    /// content itself; without, the head is all.
    pub open spec fn composed(&self) -> Seq<char> {
        match self.content {
            Some(content) => self.head() + "\nContent-Length: "@ + decimal_text(
                encode_utf8(content@).len() as int,
            ) + "\nContent-Type: "@ + text_or_empty(self.mime) + seq!['\n', '\n'] + content@,
            None => self.head(),
        }
    }

    /// Writes the response out as text.
    pub fn compose(&self) -> (text: String)
        ensures
            text@ == self.composed(),
    {
        let mut response = "HTTP/1.1 ".to_owned();
        push_decimal_text(&mut response, self.status_code.code as i64);
        response.append(" ");
        response.append(self.status_code.description().as_str());
        response.append("\nServer:CrossPointApi");
        assert(response@ == self.head());
        match &self.content {
            Some(content) => {
                response.append("\nContent-Length: ");
                let length: usize = content.as_str().as_bytes().len();
                push_unsigned_text(&mut response, length as u64);
                response.append("\nContent-Type: ");
                match &self.mime {
                    Some(mime) => response.append(mime.as_str()),
                    None => {
                        assert(response@ + Seq::<char>::empty() == response@);
                    },
                }
                let ghost before = response@;
                assert(before == self.head() + "\nContent-Length: "@ + decimal_text(
                    encode_utf8(content@).len() as int,
                ) + "\nContent-Type: "@ + text_or_empty(self.mime));
                push_char(&mut response, '\n');
                push_char(&mut response, '\n');
                assert(response@ == before + seq!['\n', '\n']);
                response.append(content.as_str());
            },
            None => {},
        }
        response
    }
}

} // verus!
