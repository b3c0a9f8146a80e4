//! API versions: their text form and how endpoints carry them.
use vstd::prelude::*;
use crate::text::{decimal, starts_with_char, usize_to_string};
use vstd::utf8::encode_utf8;

verus! {

/// Why a version text was refused, in words.
#[derive(Debug)]
pub enum Error {
    MalformedVersion(String),
}

/// An API version, used to decide whether a client and a server are compatible.
#[derive(Clone, Copy, Debug, PartialEq, Eq, Structural, PartialOrd, Ord)]
pub struct ApiVersion {
    major: usize,
    minor: Option<usize>,
    patch: Option<usize>,
}

/// Major, minor and patch number of a version.
pub type VersionModel = (usize, Option<usize>, Option<usize>);

impl View for ApiVersion {
    type V = VersionModel;

    closed spec fn view(&self) -> VersionModel {
        (self.major, self.minor, self.patch)
    }
}

/// A component after a dot.
pub open spec fn component_text(c: Option<usize>) -> Seq<char> {
    match c {
        Some(n) => seq!['.'] + decimal(n as nat),
        None => Seq::empty(),
    }
}

/// The text form of a version: `major[.minor][.patch]`.
pub open spec fn version_text(v: VersionModel) -> Seq<char> {
    decimal(v.0 as nat) + component_text(v.1) + component_text(v.2)
}

/// The endpoint of `ep` under a version: `/v<version>`, a `/` unless `ep` starts with one,
/// then `ep`.
pub open spec fn endpoint_text(v: VersionModel, ep: Seq<char>) -> Seq<char> {
    "/v"@ + version_text(v) + (if ep.len() > 0 && ep[0] == '/' {
        Seq::empty()
    } else {
        seq!['/']
    }) + ep
}

/// Why a decimal number could not be read.
#[derive(Debug, Clone, Copy, PartialEq, Eq)]
pub enum IntErrorKind {
    Empty,
    InvalidDigit,
    PosOverflow,
}

/// The byte `.`.
pub open spec fn is_dot(b: u8) -> bool {
    b == 0x2eu8
}

/// The pieces of a byte sequence between dots; there is always at least one.
pub open spec fn split_dots(b: Seq<u8>) -> Seq<Seq<u8>>
    decreases b.len(),
{
    if b.len() == 0 {
        seq![Seq::empty()]
    } else {
        let p = split_dots(b.drop_last());
        if is_dot(b.last()) {
            p.push(Seq::empty())
        } else {
            p.update(p.len() - 1, p.last().push(b.last()))
        }
    }
}

/// Whether a byte is a decimal digit.
pub open spec fn is_digit(b: u8) -> bool {
    0x30u8 <= b <= 0x39u8
}

/// The value of a sequence of digits read from the left, or the first reason it has none:
/// a byte that is no digit, or a value past `usize::MAX`.
pub open spec fn scan_digits(d: Seq<u8>) -> Result<nat, IntErrorKind>
    decreases d.len(),
{
    if d.len() == 0 {
        Ok(0)
    } else {
        match scan_digits(d.drop_last()) {
            Err(e) => Err(e),
            Ok(v) => if !is_digit(d.last()) {
                Err(IntErrorKind::InvalidDigit)
            } else {
                let w = v * 10 + (d.last() - 0x30u8) as nat;
                if w > usize::MAX {
                    Err(IntErrorKind::PosOverflow)
                } else {
                    Ok(w)
                }
            },
        }
    }
}

/// An unsigned decimal number as `usize::from_str` reads it: an optional leading `+`, then
/// digits.
pub open spec fn parse_uint(p: Seq<u8>) -> Result<nat, IntErrorKind> {
    if p.len() == 0 {
        Err(IntErrorKind::Empty)
    } else if p[0] == 0x2bu8 {
        if p.len() == 1 {
            Err(IntErrorKind::InvalidDigit)
        } else {
            scan_digits(p.drop_first())
        }
    } else {
        scan_digits(p)
    }
}

/// The message of a number that could not be read.
pub open spec fn int_error_text(k: IntErrorKind) -> Seq<char> {
    match k {
        IntErrorKind::Empty => "cannot parse integer from empty string"@,
        IntErrorKind::InvalidDigit => "invalid digit found in string"@,
        IntErrorKind::PosOverflow => "number too large to fit in target type"@,
    }
}

/// A component that is read when it can be and left out when it cannot.
pub open spec fn optional_component(p: Seq<u8>) -> Option<usize> {
    match parse_uint(p) {
        Ok(v) => Some(v as usize),
        Err(_) => None,
    }
}

/// What a version text gives: its numbers, or the message of why it is refused. The major
/// number must be read; minor and patch are left out when they cannot be; a fourth
/// component is refused.
pub open spec fn parse_version(b: Seq<u8>) -> Result<VersionModel, Seq<char>> {
    let parts = split_dots(b);
    match parse_uint(parts[0]) {
        Err(k) => Err(int_error_text(k)),
        Ok(major) => if parts.len() > 3 {
            Err("unexpected extra tokens"@)
        } else {
            Ok(
                (
                    major as usize,
                    if parts.len() > 1 {
                        optional_component(parts[1])
                    } else {
                        None
                    },
                    if parts.len() > 2 {
                        optional_component(parts[2])
                    } else {
                        None
                    },
                ),
            )
        },
    }
}

/// Reads an unsigned decimal number.
fn parse_uint_bytes(p: &[u8]) -> (r: std::result::Result<usize, IntErrorKind>)
    ensures
        match parse_uint(p@) {
            Ok(v) => r matches Ok(x) && x == v,
            Err(k) => r matches Err(e) && e == k,
        },
{
    if p.len() == 0 {
        return Err(IntErrorKind::Empty);
    }
    let mut start: usize = 0;
    if p[0] == 0x2bu8 {
        if p.len() == 1 {
            return Err(IntErrorKind::InvalidDigit);
        }
        start = 1;
    }
    let ghost d = p@.subrange(start as int, p@.len() as int);
    proof {
        if start == 1 {
            assert(d =~= p@.drop_first());
        } else {
            assert(d =~= p@);
        }
        assert(d.subrange(0, 0) =~= Seq::<u8>::empty());
    }
    let mut value: usize = 0;
    let mut i: usize = start;
    while i < p.len()
        invariant
            start <= i <= p@.len(),
            d == p@.subrange(start as int, p@.len() as int),
            parse_uint(p@) == scan_digits(d),
            scan_digits(d.subrange(0, i - start)) == Ok::<nat, IntErrorKind>(value as nat),
        decreases p@.len() - i,
    {
        let b = p[i];
        proof {
            assert(d.subrange(0, i + 1 - start).drop_last() =~= d.subrange(0, i - start));
            assert(d.subrange(0, i + 1 - start).last() == b);
        }
        if b < 0x30u8 || b > 0x39u8 {
            proof {
                lemma_scan_prefix_err(d, (i + 1 - start) as nat, IntErrorKind::InvalidDigit);
                assert(d.subrange(0, d.len() as int) =~= d);
            }
            return Err(IntErrorKind::InvalidDigit);
        }
        let digit: usize = (b - 0x30u8) as usize;
        if value > (usize::MAX - digit) / 10 {
            proof {
                assert(value * 10 + digit > usize::MAX) by (nonlinear_arith)
                    requires
                        value > (usize::MAX - digit) / 10,
                        digit <= 9,
                ;
                lemma_scan_prefix_err(d, (i + 1 - start) as nat, IntErrorKind::PosOverflow);
                assert(d.subrange(0, d.len() as int) =~= d);
            }
            return Err(IntErrorKind::PosOverflow);
        }
        proof {
            assert(value * 10 + digit <= usize::MAX) by (nonlinear_arith)
                requires
                    value <= (usize::MAX - digit) / 10,
                    digit <= 9,
            ;
        }
        value = value * 10 + digit;
        i += 1;
    }
    proof {
        assert(d.subrange(0, d.len() as int) =~= d);
    }
    Ok(value)
}

/// Once a prefix of the digits fails, the whole sequence fails the same way.
proof fn lemma_scan_prefix_err(d: Seq<u8>, n: nat, k: IntErrorKind)
    requires
        n <= d.len(),
        scan_digits(d.subrange(0, n as int)) == Err::<nat, IntErrorKind>(k),
    ensures
        scan_digits(d) == Err::<nat, IntErrorKind>(k),
    decreases d.len() - n,
{
    if n < d.len() {
        assert(d.subrange(0, n + 1 as int).drop_last() =~= d.subrange(0, n as int));
        lemma_scan_prefix_err(d, n + 1, k);
    } else {
        assert(d.subrange(0, n as int) =~= d);
    }
}

impl ApiVersion {
    pub fn new(major: usize, minor: Option<usize>, patch: Option<usize>) -> (r: ApiVersion)
        ensures
            r@ == (major, minor, patch),
    {
        ApiVersion { major, minor, patch }
    }

    pub fn major(&self) -> (r: usize)
        ensures
            r == self@.0,
    {
        self.major
    }

    pub fn minor(&self) -> (r: Option<usize>)
        ensures
            r == self@.1,
    {
        self.minor
    }

    pub fn patch(&self) -> (r: Option<usize>)
        ensures
            r == self@.2,
    {
        self.patch
    }

    /// The text form of the version, `major[.minor][.patch]`.
    pub fn to_string(&self) -> (r: String)
        ensures
            r@ == version_text(self@),
    {
        let mut r = usize_to_string(self.major);
        if let Some(minor) = self.minor {
            let m = usize_to_string(minor);
            r.append(".");
            r.append(m.as_str());
            proof {
                reveal_strlit(".");
            }
        }
        if let Some(patch) = self.patch {
            let p = usize_to_string(patch);
            r.append(".");
            r.append(p.as_str());
            proof {
                reveal_strlit(".");
            }
        }
        proof {
            assert(r@ =~= version_text(self@));
        }
        r
    }

    /// The endpoint `ep` under this version.
    pub fn make_endpoint(&self, ep: &str) -> (r: String)
        ensures
            r@ == endpoint_text(self@, ep@),
    {
        let mut r = String::from_str("/v");
        let v = self.to_string();
        r.append(v.as_str());
        if !starts_with_char(ep, '/') {
            r.append("/");
        }
        r.append(ep);
        proof {
            reveal_strlit("/v");
            reveal_strlit("/");
            assert(r@ =~= endpoint_text(self@, ep@));
        }
        r
    }

    /// Reads a version from its text form.
    pub fn parse(s: &str) -> (r: std::result::Result<ApiVersion, Error>)
        ensures
            match parse_version(encode_utf8(s@)) {
                Ok(v) => r matches Ok(x) && x@ == v,
                Err(m) => r matches Err(Error::MalformedVersion(x)) && x@ == m,
            },
    {
        let b = s.as_bytes();
        let mut done: Vec<Vec<u8>> = Vec::new();
        let mut current: Vec<u8> = Vec::new();
        let mut i: usize = 0;
        proof {
            assert(b@.subrange(0, 0) =~= Seq::<u8>::empty());
            assert(done@.map_values(|v: Vec<u8>| v@).push(current@) =~= split_dots(
                b@.subrange(0, 0),
            ));
        }
        while i < b.len()
            invariant
                i <= b@.len(),
                done@.map_values(|v: Vec<u8>| v@).push(current@) == split_dots(
                    b@.subrange(0, i as int),
                ),
            decreases b@.len() - i,
        {
            let ghost pre = b@.subrange(0, i as int);
            let ghost next = b@.subrange(0, i + 1 as int);
            assert(next.drop_last() =~= pre);
            if b[i] == 0x2eu8 {
                let ghost old_done = done@;
                let ghost old_cur = current@;
                let part = current.split_off(0);
                done.push(part);
                proof {
                    assert(next.last() == 0x2eu8);
                    assert(split_dots(next) == split_dots(pre).push(Seq::empty()));
                    assert(part@ =~= old_cur);
                    assert(current@ =~= Seq::<u8>::empty());
                    assert(done@.map_values(|v: Vec<u8>| v@) =~= old_done.map_values(
                        |v: Vec<u8>| v@,
                    ).push(part@));
                    assert(done@.map_values(|v: Vec<u8>| v@).push(current@) =~= split_dots(next));
                }
            } else {
                let ghost old_cur = current@;
                let ghost sp = split_dots(pre);
                assert(sp.len() == done@.len() + 1);
                assert(sp.last() == old_cur);
                current.push(b[i]);
                proof {
                    assert(done@.map_values(|v: Vec<u8>| v@).push(current@) =~= split_dots(next));
                }
            }
            i += 1;
        }
        proof {
            assert(b@.subrange(0, b@.len() as int) =~= b@);
        }
        done.push(current);
        let ghost parts = split_dots(b@);
        assert(done@.map_values(|v: Vec<u8>| v@) =~= parts);
        assert(done@[0]@ == parts[0]);
        let major = match parse_uint_bytes(done[0].as_slice()) {
            Ok(v) => v,
            Err(k) => {
                return Err(Error::MalformedVersion(int_error_message(k)));
            },
        };
        if done.len() > 3 {
            proof {
                reveal_strlit("unexpected extra tokens");
            }
            return Err(Error::MalformedVersion(String::from_str("unexpected extra tokens")));
        }
        let minor = if done.len() > 1 {
            assert(done@[1]@ == parts[1]);
            match parse_uint_bytes(done[1].as_slice()) {
                Ok(v) => Some(v),
                Err(_) => None,
            }
        } else {
            None
        };
        let patch = if done.len() > 2 {
            assert(done@[2]@ == parts[2]);
            match parse_uint_bytes(done[2].as_slice()) {
                Ok(v) => Some(v),
                Err(_) => None,
            }
        } else {
            None
        };
        Ok(ApiVersion { major, minor, patch })
    }
}

/// The message of a number that could not be read.
fn int_error_message(k: IntErrorKind) -> (r: String)
    ensures
        r@ == int_error_text(k),
{
    match k {
        IntErrorKind::Empty => {
            proof {
                reveal_strlit("cannot parse integer from empty string");
            }
            String::from_str("cannot parse integer from empty string")
        },
        IntErrorKind::InvalidDigit => {
            proof {
                reveal_strlit("invalid digit found in string");
            }
            String::from_str("invalid digit found in string")
        },
        IntErrorKind::PosOverflow => {
            proof {
                reveal_strlit("number too large to fit in target type");
            }
            String::from_str("number too large to fit in target type")
        },
    }
}

impl std::str::FromStr for ApiVersion {
    type Err = Error;

    fn from_str(s: &str) -> std::result::Result<ApiVersion, Error> {
        ApiVersion::parse(s)
    }
}

impl From<usize> for ApiVersion {
    fn from(v: usize) -> (r: ApiVersion) {
        ApiVersion { major: v, minor: None, patch: None }
    }
}

impl vstd::std_specs::convert::FromSpecImpl<usize> for ApiVersion {
    open spec fn obeys_from_spec() -> bool {
        true
    }

    closed spec fn from_spec(v: usize) -> ApiVersion {
        ApiVersion { major: v, minor: None, patch: None }
    }
}

impl From<(usize, usize)> for ApiVersion {
    fn from(v: (usize, usize)) -> (r: ApiVersion) {
        ApiVersion { major: v.0, minor: Some(v.1), patch: None }
    }
}

impl vstd::std_specs::convert::FromSpecImpl<(usize, usize)> for ApiVersion {
    open spec fn obeys_from_spec() -> bool {
        true
    }

    closed spec fn from_spec(v: (usize, usize)) -> ApiVersion {
        ApiVersion { major: v.0, minor: Some(v.1), patch: None }
    }
}

impl From<(usize, usize, usize)> for ApiVersion {
    fn from(v: (usize, usize, usize)) -> (r: ApiVersion) {
        ApiVersion { major: v.0, minor: Some(v.1), patch: Some(v.2) }
    }
}

impl vstd::std_specs::convert::FromSpecImpl<(usize, usize, usize)> for ApiVersion {
    open spec fn obeys_from_spec() -> bool {
        true
    }

    closed spec fn from_spec(v: (usize, usize, usize)) -> ApiVersion {
        ApiVersion { major: v.0, minor: Some(v.1), patch: Some(v.2) }
    }
}

} // verus!
