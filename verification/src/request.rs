use vstd::prelude::*;

verus! {

/// How a raw request is classified: the plain root page, the page that
/// is served after a deliberate delay, or anything else, which gets the
/// not-found page.
#[derive(PartialEq, Eq, Structural, Debug, Clone, Copy)]
pub enum RequestKind {
    Root,
    Sleep,
    NotFound,
}

/// The bytes of the request line `GET / HTTP/1.1` followed by a
/// carriage return and a line feed.
pub open spec fn root_line() -> Seq<u8> {
    seq![71u8, 69, 84, 32, 47, 32, 72, 84, 84, 80, 47, 49, 46, 49, 13, 10]
}

/// The bytes of the request line `GET /sleep HTTP/1.1` followed by a
/// carriage return and a line feed.
pub open spec fn sleep_line() -> Seq<u8> {
    seq![71u8, 69, 84, 32, 47, 115, 108, 101, 101, 112, 32, 72, 84, 84, 80, 47, 49, 46, 49, 13, 10]
}

/// The classification rule: the root line wins, then the sleep line,
/// and everything else is not found.
pub open spec fn classification(buf: Seq<u8>) -> RequestKind {
    if root_line().is_prefix_of(buf) {
        RequestKind::Root
    } else if sleep_line().is_prefix_of(buf) {
        RequestKind::Sleep
    } else {
        RequestKind::NotFound
    }
}

/// Whether the pattern is a prefix of the buffer, byte for byte.
fn starts_with(buf: &[u8], pat: &Vec<u8>) -> (r: bool)
    ensures
        r == pat@.is_prefix_of(buf@),
{
    if pat.len() > buf.len() {
        return false;
    }
    let mut i: usize = 0;
    while i < pat.len()
        invariant
            i <= pat@.len(),
            pat@.len() <= buf@.len(),
            forall|k: int| 0 <= k < i ==> buf@[k] == #[trigger] pat@[k],
        decreases pat@.len() - i,
    {
        if buf[i] != pat[i] {
            proof {
                assert(pat@.is_prefix_of(buf@)
                    ==> pat@[i as int] == buf@.subrange(0, pat@.len() as int)[i as int]);
            }
            return false;
        }
        i = i + 1;
    }
    proof {
        assert(pat@ =~= buf@.subrange(0, pat@.len() as int));
    }
    true
}

/// The root request line, as bytes a buffer can be compared with.
fn root_line_bytes() -> (v: Vec<u8>)
    ensures
        v@ == root_line(),
{
    let v: Vec<u8> = vec![71u8, 69, 84, 32, 47, 32, 72, 84, 84, 80, 47, 49, 46, 49, 13, 10];
    proof {
        assert(v@ =~= root_line());
    }
    v
}

/// The sleep request line, as bytes a buffer can be compared with.
fn sleep_line_bytes() -> (v: Vec<u8>)
    ensures
        v@ == sleep_line(),
{
    let v: Vec<u8> = vec![
        71u8, 69, 84, 32, 47, 115, 108, 101, 101, 112, 32, 72, 84, 84, 80, 47, 49, 46, 49, 13, 10,
    ];
    proof {
        assert(v@ =~= sleep_line());
    }
    v
}

/// Classify a raw request buffer, exactly as the connection handler
/// decides which response to write: a buffer beginning with the root
/// request line is the root page, one beginning with the sleep request
/// line is the delayed page, and any other buffer gets the not-found
/// page.
pub fn classify_request(buf: &[u8]) -> (k: RequestKind)
    ensures
        k == classification(buf@),
{
    let root = root_line_bytes();
    if starts_with(buf, &root) {
        return RequestKind::Root;
    }
    let sleep = sleep_line_bytes();
    if starts_with(buf, &sleep) {
        return RequestKind::Sleep;
    }
    RequestKind::NotFound
}

/// The status line of the response for each kind of request: a success
/// line for the two known pages, the not-found line otherwise.
pub fn status_line(k: RequestKind) -> (s: &'static str)
    ensures
        (k is Root || k is Sleep) ==> s@ == "HTTP/1.1 200 OK\r\n\r\n"@,
        k is NotFound ==> s@ == "HTTP/1.1 404 NOT FOUND\r\n\r\n"@,
{
    match k {
        RequestKind::Root => "HTTP/1.1 200 OK\r\n\r\n",
        RequestKind::Sleep => "HTTP/1.1 200 OK\r\n\r\n",
        RequestKind::NotFound => "HTTP/1.1 404 NOT FOUND\r\n\r\n",
    }
}

/// The file whose contents answer each kind of request.
pub fn response_file(k: RequestKind) -> (s: &'static str)
    ensures
        (k is Root || k is Sleep) ==> s@ == "hello.html"@,
        k is NotFound ==> s@ == "404.html"@,
{
    match k {
        RequestKind::Root => "hello.html",
        RequestKind::Sleep => "hello.html",
        RequestKind::NotFound => "404.html",
    }
}

} // verus!
