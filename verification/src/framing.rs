//! Wire framing of the control socket.
//!
//! A frame is a header line and a payload line, each terminated by a
//! newline; four NUL bytes between the newlines encode "no payload". The
//! file descriptors that travel with a frame as ancillary data are carried
//! alongside; the socket calls themselves live outside this crate.

use vstd::prelude::*;

use vstd::utf8::valid_utf8;

verus! {

/// Raw framed control message: header line and payload line plus the file
/// descriptors received or to be sent with it.
#[derive(Debug, Clone, PartialEq, Eq)]
pub struct TabMessageFrame {
    pub header: Vec<u8>,
    pub payload: Option<Vec<u8>>,
    pub fds: Vec<i32>,
}

/// How reading or writing a frame can fail.
#[derive(Clone, Copy, Debug, PartialEq, Eq, Structural)]
pub enum ProtocolError {
    /// The socket had nothing to read yet; recoverable.
    WouldBlock,
    /// The peer closed the stream before a full frame arrived.
    UnexpectedEof,
    /// The kernel truncated the message.
    Truncated,
    /// Bytes other than NUL padding followed the second newline.
    TrailingData,
    /// A line was not valid UTF-8.
    Utf8,
    /// A payload did not parse as JSON.
    Json,
    /// The frame carried the wrong number of file descriptors.
    ExpectedFds { expected: u32, found: u32 },
    /// A payload was required but absent.
    ExpectedPayload,
}

/// The newline byte that terminates each of the two lines of a frame.
pub open spec fn nl() -> u8 {
    0x0a
}

/// ASCII whitespace, as trimmed from the end of a header line.
pub open spec fn is_ws(b: u8) -> bool {
    b == 0x09 || b == 0x0a || b == 0x0b || b == 0x0c || b == 0x0d || b == 0x20
}

/// A header line with its trailing whitespace removed.
pub open spec fn trim_trailing_ws(s: Seq<u8>) -> Seq<u8>
    decreases s.len(),
{
    if s.len() > 0 && is_ws(s.last()) {
        trim_trailing_ws(s.drop_last())
    } else {
        s
    }
}

/// A payload line with its trailing newlines removed.
pub open spec fn trim_trailing_nl(s: Seq<u8>) -> Seq<u8>
    decreases s.len(),
{
    if s.len() > 0 && s.last() == nl() {
        trim_trailing_nl(s.drop_last())
    } else {
        s
    }
}

/// The four NUL bytes that stand for "no payload".
pub open spec fn nul4() -> Seq<u8> {
    seq![0u8, 0u8, 0u8, 0u8]
}

/// The bytes a frame puts on the wire.
pub open spec fn spec_serialize(header: Seq<u8>, payload: Option<Seq<u8>>) -> Seq<u8> {
    trim_trailing_ws(header) + seq![nl()] + (match payload {
        Some(p) => trim_trailing_nl(p),
        None => nul4(),
    }) + seq![nl()]
}

/// The first newline at or after position `i`.
pub open spec fn spec_find_nl(s: Seq<u8>, i: int) -> Option<int>
    decreases s.len() - i,
{
    if i < 0 || i >= s.len() {
        None
    } else if s[i] == nl() {
        Some(i)
    } else {
        spec_find_nl(s, i + 1)
    }
}

/// What parsing a byte buffer yields: too little data (`Ok(None)`), a frame
/// as header, payload and consumed length, or a framing error.
pub open spec fn spec_parse(bytes: Seq<u8>) -> Result<
    Option<(Seq<u8>, Option<Seq<u8>>, int)>,
    ProtocolError,
> {
    match spec_find_nl(bytes, 0) {
        None => Ok(None),
        Some(first) => match spec_find_nl(bytes, first + 1) {
            None => Ok(None),
            Some(second) => {
                let header = bytes.subrange(0, first);
                let payload = bytes.subrange(first + 1, second);
                if !valid_utf8(header) || !valid_utf8(payload) {
                    Err(ProtocolError::Utf8)
                } else if payload == nul4() {
                    Ok(Some((header, None, second + 1)))
                } else {
                    Ok(Some((header, Some(payload), second + 1)))
                }
            },
        },
    }
}

/// A frame this library considers canonical: lines free of newlines, the
/// header free of trailing whitespace, both lines valid UTF-8, and a payload
/// that is neither the NUL marker nor newline-terminated.
pub open spec fn frame_wf(header: Seq<u8>, payload: Option<Seq<u8>>) -> bool {
    &&& forall|i: int| 0 <= i < header.len() ==> header[i] != nl()
    &&& (header.len() > 0 ==> !is_ws(header.last()))
    &&& valid_utf8(header)
    &&& match payload {
        Some(p) => {
            &&& forall|i: int| 0 <= i < p.len() ==> p[i] != nl()
            &&& p != nul4()
            &&& valid_utf8(p)
        },
        None => true,
    }
}


/// The payload bytes of a frame, if any, as a sequence.
pub open spec fn opt_bytes_view(p: Option<Vec<u8>>) -> Option<Seq<u8>> {
    match p {
        Some(v) => Some(v@),
        None => None,
    }
}

/// Whether a byte is ASCII whitespace as [`is_ws`] defines it.
fn byte_is_ws(b: u8) -> (r: bool)
    ensures
        r == is_ws(b),
{
    b == 0x09 || b == 0x0a || b == 0x0b || b == 0x0c || b == 0x0d || b == 0x20
}

/// The first newline at or after `from`.
fn find_nl(bytes: &[u8], from: usize) -> (r: Option<usize>)
    requires
        from <= bytes@.len(),
    ensures
        match r {
            Some(i) => from <= i < bytes@.len() && spec_find_nl(bytes@, from as int) == Some(
                i as int,
            ),
            None => spec_find_nl(bytes@, from as int) is None,
        },
{
    let mut i: usize = from;
    while i < bytes.len()
        invariant
            from <= i <= bytes@.len(),
            spec_find_nl(bytes@, from as int) == spec_find_nl(bytes@, i as int),
        decreases bytes@.len() - i,
    {
        if bytes[i] == 0x0a {
            return Some(i);
        }
        i = i + 1;
    }
    None
}

/// Validates a UTF-8 encoding, byte for byte.
pub fn validate_utf8(bytes: &[u8]) -> (r: bool)
    ensures
        r == valid_utf8(bytes@),
{
    let n = bytes.len();
    let mut i: usize = 0;
    proof {
        assert(bytes@.subrange(0, n as int) =~= bytes@);
    }
    while i < n
        invariant
            0 <= i <= n,
            n == bytes@.len(),
            valid_utf8(bytes@) == valid_utf8(bytes@.subrange(i as int, n as int)),
        decreases n - i,
    {
        let ghost suffix = bytes@.subrange(i as int, n as int);
        let b0 = bytes[i];
        proof {
            assert(suffix[0] == b0);
        }
        let width: usize;
        if b0 <= 0x7f {
            proof {
                assert(vstd::utf8::valid_first_scalar(suffix));
                assert(vstd::utf8::length_of_first_scalar(suffix) == 1);
            }
            width = 1;
        } else if 0xc2 <= b0 && b0 <= 0xdf {
            if i + 1 >= n {
                proof {
                    assert(!vstd::utf8::valid_leading_and_continuation_bytes_first_codepoint(
                        suffix,
                    ));
                }
                return false;
            }
            let b1 = bytes[i + 1];
            proof {
                assert(suffix[1] == b1);
            }
            if !(0x80 <= b1 && b1 <= 0xbf) {
                proof {
                    assert(!vstd::utf8::valid_leading_and_continuation_bytes_first_codepoint(
                        suffix,
                    ));
                }
                return false;
            }
            proof {
                let cp = vstd::utf8::codepoint_width_2(b0, b1);
                assert(cp >= 0x80) by (bit_vector)
                    requires
                        0xc2 <= b0 <= 0xdf,
                        0x80 <= b1 <= 0xbf,
                        cp == ((b0 & 0x1f) as u32) << 6 | ((b1 & 0x3f) as u32),
                ;
                assert(cp < 0x800) by (bit_vector)
                    requires
                        cp == ((b0 & 0x1f) as u32) << 6 | ((b1 & 0x3f) as u32),
                ;
                assert(vstd::utf8::valid_first_scalar(suffix));
                assert(vstd::utf8::length_of_first_scalar(suffix) == 2);
            }
            width = 2;
        } else if 0xe0 <= b0 && b0 <= 0xef {
            if n - i < 3 {
                proof {
                    assert(!vstd::utf8::valid_leading_and_continuation_bytes_first_codepoint(
                        suffix,
                    ));
                }
                return false;
            }
            let b1 = bytes[i + 1];
            let b2 = bytes[i + 2];
            proof {
                assert(suffix[1] == b1);
                assert(suffix[2] == b2);
            }
            if !(0x80 <= b1 && b1 <= 0xbf) || !(0x80 <= b2 && b2 <= 0xbf) {
                proof {
                    assert(!vstd::utf8::valid_leading_and_continuation_bytes_first_codepoint(
                        suffix,
                    ));
                }
                return false;
            }
            let cp: u32 = (((b0 & 0x0f) as u32) << 12) | (((b1 & 0x3f) as u32) << 6) | ((b2
                & 0x3f) as u32);
            if cp < 0x800 || (0xd800 <= cp && cp <= 0xdfff) {
                proof {
                    assert(cp == vstd::utf8::codepoint_width_3(b0, b1, b2));
                    assert(!vstd::utf8::valid_first_scalar(suffix));
                }
                return false;
            }
            proof {
                assert(cp == vstd::utf8::codepoint_width_3(b0, b1, b2));
                assert(vstd::utf8::valid_first_scalar(suffix));
                assert(vstd::utf8::length_of_first_scalar(suffix) == 3);
            }
            width = 3;
        } else if 0xf0 <= b0 && b0 <= 0xf7 {
            if n - i < 4 {
                proof {
                    assert(!vstd::utf8::valid_leading_and_continuation_bytes_first_codepoint(
                        suffix,
                    ));
                }
                return false;
            }
            let b1 = bytes[i + 1];
            let b2 = bytes[i + 2];
            let b3 = bytes[i + 3];
            proof {
                assert(suffix[1] == b1);
                assert(suffix[2] == b2);
                assert(suffix[3] == b3);
            }
            if !(0x80 <= b1 && b1 <= 0xbf) || !(0x80 <= b2 && b2 <= 0xbf) || !(0x80 <= b3 && b3
                <= 0xbf) {
                proof {
                    assert(!vstd::utf8::valid_leading_and_continuation_bytes_first_codepoint(
                        suffix,
                    ));
                }
                return false;
            }
            let cp: u32 = (((b0 & 0x07) as u32) << 18) | (((b1 & 0x3f) as u32) << 12) | (((b2
                & 0x3f) as u32) << 6) | ((b3 & 0x3f) as u32);
            if cp < 0x10000 || cp > 0x10ffff {
                proof {
                    assert(cp == vstd::utf8::codepoint_width_4(b0, b1, b2, b3));
                    assert(!vstd::utf8::valid_first_scalar(suffix));
                }
                return false;
            }
            proof {
                assert(cp == vstd::utf8::codepoint_width_4(b0, b1, b2, b3));
                assert(vstd::utf8::valid_first_scalar(suffix));
                assert(vstd::utf8::length_of_first_scalar(suffix) == 4);
            }
            width = 4;
        } else {
            proof {
                if vstd::utf8::valid_leading_and_continuation_bytes_first_codepoint(suffix) {
                    assert(0xc0 <= b0 && b0 <= 0xc1);
                    assert(suffix.len() >= 2 && vstd::utf8::is_continuation_byte(suffix[1]));
                    let b1 = suffix[1];
                    let cp = vstd::utf8::codepoint_width_2(b0, b1);
                    assert(cp == ((b0 & 0x1f) as u32) << 6 | ((b1 & 0x3f) as u32));
                    assert(cp < 0x80) by (bit_vector)
                        requires
                            0xc0 <= b0 <= 0xc1,
                            cp == ((b0 & 0x1f) as u32) << 6 | ((b1 & 0x3f) as u32),
                    ;
                    assert(!vstd::utf8::not_overlong_encoding(cp, 2));
                }
                assert(!vstd::utf8::valid_first_scalar(suffix));
            }
            return false;
        }
        proof {
            assert(vstd::utf8::pop_first_scalar(suffix) =~= bytes@.subrange(
                i + width,
                n as int,
            ));
        }
        i = i + width;
    }
    proof {
        assert(bytes@.subrange(i as int, n as int) =~= Seq::<u8>::empty());
    }
    true
}

impl TabMessageFrame {
    /// A frame with the given header line and no payload.
    pub fn no_payload(header: Vec<u8>) -> (r: Self)
        ensures
            r.header@ == header@,
            r.payload is None,
            r.fds@ == Seq::<i32>::empty(),
    {
        TabMessageFrame { header, payload: None, fds: Vec::new() }
    }

    /// A frame with the given header and payload lines.
    pub fn raw(header: Vec<u8>, body: Vec<u8>) -> (r: Self)
        ensures
            r.header@ == header@,
            opt_bytes_view(r.payload) == Some(body@),
            r.fds@ == Seq::<i32>::empty(),
    {
        TabMessageFrame { header, payload: Some(body), fds: Vec::new() }
    }

    /// Checks that the frame carried exactly `amount` file descriptors.
    pub fn expect_n_fds(&self, amount: u32) -> (r: Result<(), ProtocolError>)
        requires
            self.fds@.len() <= u32::MAX,
        ensures
            r == (if self.fds@.len() == amount {
                Ok::<(), ProtocolError>(())
            } else {
                Err::<(), ProtocolError>(ProtocolError::ExpectedFds {
                    expected: amount,
                    found: self.fds@.len() as u32,
                })
            }),
    {
        let found = self.fds.len() as u32;
        if found == amount {
            Ok(())
        } else {
            Err(ProtocolError::ExpectedFds { expected: amount, found })
        }
    }

    /// Puts the frame's two lines on the wire: trimmed header, newline,
    /// payload (or the NUL marker), newline.
    pub fn serialize(&self) -> (r: Vec<u8>)
        ensures
            r@ == spec_serialize(self.header@, opt_bytes_view(self.payload)),
    {
        let mut hl: usize = self.header.len();
        proof {
            assert(self.header@.subrange(0, hl as int) =~= self.header@);
        }
        while hl > 0 && byte_is_ws(self.header[hl - 1])
            invariant
                hl <= self.header@.len(),
                trim_trailing_ws(self.header@) == trim_trailing_ws(
                    self.header@.subrange(0, hl as int),
                ),
            decreases hl,
        {
            proof {
                assert(self.header@.subrange(0, hl as int).last() == self.header@[hl - 1]);
                assert(self.header@.subrange(0, hl as int).drop_last() =~= self.header@.subrange(
                    0,
                    hl - 1,
                ));
            }
            hl = hl - 1;
        }
        proof {
            assert(trim_trailing_ws(self.header@.subrange(0, hl as int)) == self.header@.subrange(
                0,
                hl as int,
            ));
        }
        let mut out: Vec<u8> = Vec::new();
        let mut i: usize = 0;
        while i < hl
            invariant
                i <= hl <= self.header@.len(),
                out@ == self.header@.subrange(0, i as int),
            decreases hl - i,
        {
            out.push(self.header[i]);
            proof {
                assert(self.header@.subrange(0, i + 1) =~= self.header@.subrange(0, i as int).push(
                    self.header@[i as int],
                ));
            }
            i = i + 1;
        }
        out.push(0x0a);
        let ghost mid = trim_trailing_ws(self.header@) + seq![nl()];
        proof {
            assert(out@ =~= mid);
        }
        match &self.payload {
            Some(p) => {
                let mut pl: usize = p.len();
                proof {
                    assert(p@.subrange(0, pl as int) =~= p@);
                }
                while pl > 0 && p[pl - 1] == 0x0a
                    invariant
                        pl <= p@.len(),
                        trim_trailing_nl(p@) == trim_trailing_nl(p@.subrange(0, pl as int)),
                    decreases pl,
                {
                    proof {
                        assert(p@.subrange(0, pl as int).last() == p@[pl - 1]);
                        assert(p@.subrange(0, pl as int).drop_last() =~= p@.subrange(0, pl - 1));
                    }
                    pl = pl - 1;
                }
                proof {
                    assert(trim_trailing_nl(p@.subrange(0, pl as int)) == p@.subrange(
                        0,
                        pl as int,
                    ));
                }
                let mut j: usize = 0;
                while j < pl
                    invariant
                        j <= pl <= p@.len(),
                        out@ == mid + p@.subrange(0, j as int),
                    decreases pl - j,
                {
                    out.push(p[j]);
                    proof {
                        assert(p@.subrange(0, j + 1) =~= p@.subrange(0, j as int).push(
                            p@[j as int],
                        ));
                        assert(mid + p@.subrange(0, j + 1) =~= (mid + p@.subrange(0, j as int)).push(
                            p@[j as int],
                        ));
                    }
                    j = j + 1;
                }
            },
            None => {
                out.push(0);
                out.push(0);
                out.push(0);
                out.push(0);
                proof {
                    assert(out@ =~= mid + nul4());
                }
            },
        }
        out.push(0x0a);
        proof {
            assert(out@ =~= spec_serialize(self.header@, opt_bytes_view(self.payload)));
        }
        out
    }

    /// Parses one frame from the front of a byte buffer, attaching the file
    /// descriptors received with it. `Ok(None)` means more bytes are needed;
    /// otherwise the frame and the number of bytes it occupied are returned.
    pub fn parse_from_bytes(bytes: &[u8], fds: Vec<i32>) -> (r: Result<
        Option<(TabMessageFrame, usize)>,
        ProtocolError,
    >)
        ensures
            ({
                match spec_parse(bytes@) {
                    Ok(None) => r matches Ok(None),
                    Ok(Some((h, p, used))) => (match r {
                        Ok(Some((frame, u))) => frame.header@ == h && opt_bytes_view(frame.payload)
                            == p && frame.fds@ == fds@ && u == used,
                        _ => false,
                    }),
                    Err(e) => r == Err::<Option<(TabMessageFrame, usize)>, ProtocolError>(e),
                }
            }),
    {
        let n = bytes.len();
        let first = match find_nl(bytes, 0) {
            Some(i) => i,
            None => {
                return Ok(None);
            },
        };
        proof {
            assert(first < n);
        }
        let second = match find_nl(bytes, first + 1) {
            Some(i) => i,
            None => {
                return Ok(None);
            },
        };
        let mut header: Vec<u8> = Vec::new();
        let mut i: usize = 0;
        while i < first
            invariant
                i <= first < bytes@.len(),
                header@ == bytes@.subrange(0, i as int),
            decreases first - i,
        {
            header.push(bytes[i]);
            proof {
                assert(bytes@.subrange(0, i + 1) =~= bytes@.subrange(0, i as int).push(
                    bytes@[i as int],
                ));
            }
            i = i + 1;
        }
        let mut payload: Vec<u8> = Vec::new();
        let mut j: usize = first + 1;
        proof {
            assert(bytes@.subrange(first + 1, first + 1) =~= Seq::<u8>::empty());
        }
        while j < second
            invariant
                first + 1 <= j <= second < bytes@.len(),
                payload@ == bytes@.subrange(first + 1, j as int),
            decreases second - j,
        {
            payload.push(bytes[j]);
            proof {
                assert(bytes@.subrange(first + 1, j + 1) =~= bytes@.subrange(
                    first + 1,
                    j as int,
                ).push(bytes@[j as int]));
            }
            j = j + 1;
        }
        if !validate_utf8(header.as_slice()) || !validate_utf8(payload.as_slice()) {
            return Err(ProtocolError::Utf8);
        }
        let is_nul4 = payload.len() == 4 && payload[0] == 0 && payload[1] == 0 && payload[2] == 0
            && payload[3] == 0;
        proof {
            if is_nul4 {
                assert(payload@ =~= nul4());
            } else {
                assert(payload@ != nul4());
            }
        }
        proof {
            assert(second < n);
        }
        let frame = TabMessageFrame {
            header,
            payload: if is_nul4 {
                None
            } else {
                Some(payload)
            },
            fds,
        };
        Ok(Some((frame, second + 1)))
    }
}

/// The first newline of a buffer whose bytes before `t` are newline-free is
/// at `t`.
proof fn lemma_find_nl_at(s: Seq<u8>, i: int, t: int)
    requires
        0 <= i <= t < s.len(),
        s[t] == nl(),
        forall|j: int| i <= j < t ==> s[j] != nl(),
    ensures
        spec_find_nl(s, i) == Some(t),
    decreases t - i,
{
    if i < t {
        lemma_find_nl_at(s, i + 1, t);
    }
}

/// The NUL "no payload" marker is valid UTF-8.
proof fn lemma_nul4_valid_utf8()
    ensures
        valid_utf8(nul4()),
{
    let s0 = nul4();
    let s1 = s0.subrange(1, 4);
    let s2 = s0.subrange(2, 4);
    let s3 = s0.subrange(3, 4);
    let s4 = s0.subrange(4, 4);
    assert(vstd::utf8::valid_first_scalar(s0));
    assert(vstd::utf8::pop_first_scalar(s0) =~= s1);
    assert(s1[0] == 0);
    assert(vstd::utf8::valid_first_scalar(s1));
    assert(vstd::utf8::pop_first_scalar(s1) =~= s2);
    assert(s2[0] == 0);
    assert(vstd::utf8::valid_first_scalar(s2));
    assert(vstd::utf8::pop_first_scalar(s2) =~= s3);
    assert(s3[0] == 0);
    assert(vstd::utf8::valid_first_scalar(s3));
    assert(vstd::utf8::pop_first_scalar(s3) =~= s4);
    assert(s4.len() == 0);
    assert(valid_utf8(s4));
    assert(valid_utf8(s3));
    assert(valid_utf8(s2));
    assert(valid_utf8(s1));
    assert(valid_utf8(s0));
}

/// Framing round-trip: parsing what a canonical frame serializes to yields
/// the frame back, consuming the whole buffer; in particular the NUL marker
/// round-trips to "no payload".
pub proof fn lemma_framing_roundtrip(header: Seq<u8>, payload: Option<Seq<u8>>)
    requires
        frame_wf(header, payload),
    ensures
        spec_parse(spec_serialize(header, payload)) == Ok::<
            Option<(Seq<u8>, Option<Seq<u8>>, int)>,
            ProtocolError,
        >(Some((header, payload, spec_serialize(header, payload).len() as int))),
{
    let body = match payload {
        Some(p) => p,
        None => nul4(),
    };
    let s = spec_serialize(header, payload);
    assert(trim_trailing_ws(header) == header);
    match payload {
        Some(p) => {
            assert(p.len() > 0 ==> p.last() != nl());
            assert(trim_trailing_nl(p) == p);
        },
        None => {},
    }
    assert(s =~= header + seq![nl()] + body + seq![nl()]);
    let first = header.len() as int;
    let second = header.len() + 1 + body.len() as int;
    assert(s[first] == nl());
    assert(s[second] == nl());
    assert(forall|j: int| 0 <= j < first ==> s[j] == header[j] && s[j] != nl());
    assert(forall|j: int|
        first + 1 <= j < second ==> s[j] == body[j - first - 1] && s[j] != nl());
    lemma_find_nl_at(s, 0, first);
    lemma_find_nl_at(s, first + 1, second);
    assert(s.subrange(0, first) =~= header);
    assert(s.subrange(first + 1, second) =~= body);
    lemma_nul4_valid_utf8();
    match payload {
        Some(p) => {
            assert(valid_utf8(p));
        },
        None => {},
    }
    assert(second + 1 == s.len());
}

} // verus!
