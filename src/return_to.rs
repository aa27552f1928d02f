//! Sending a user back to where they came from after a detour such as
//! logging in.
use vstd::prelude::*;
use vstd::string::StringExecFns;

verus! {

/// An uppercase hexadecimal digit.
pub open spec fn hex_upper(d: u8) -> char {
    if d < 10 {
        (('0' as u8) + d) as char
    } else {
        (('A' as u8) + (d - 10)) as char
    }
}

/// `%` and the two uppercase hexadecimal digits of `b`.
pub open spec fn percent_byte(b: u8) -> Seq<char> {
    seq!['%', hex_upper(b / 16), hex_upper(b % 16)]
}

/// Relies on `percent_encoding::percent_encode_byte`: `%` followed by the two
/// uppercase hexadecimal digits of `byte`.
#[verifier::external_body]
fn percent_encode_byte(byte: u8) -> (r: &'static str)
    ensures
        r@ == percent_byte(byte),
{
    percent_encoding::percent_encode_byte(byte)
}

/// Relies on `String::push`: appends `c`.
#[verifier::external_body]
pub(crate) fn push_char(s: &mut String, c: char)
    ensures
        final(s)@ == old(s)@.push(c),
{
    s.push(c)
}

/// Whether a byte is escaped in a query value: control characters, bytes
/// outside ASCII, and the characters that have a meaning in a URL.
pub open spec fn query_escaped(b: u8) -> bool {
    b < 0x20 || b == 0x7f || b >= 0x80 || b == 0x3b /* ; */ || b == 0x2f /* / */ || b == 0x3f /* ? */
        || b == 0x40 /* @ */ || b == 0x26 /* & */ || b == 0x3d /* = */ || b == 0x2b /* + */
        || b == 0x24 /* $ */ || b == 0x2c /* , */
}

pub open spec fn query_byte(b: u8) -> Seq<char> {
    if query_escaped(b) {
        percent_byte(b)
    } else {
        seq![b as char]
    }
}

/// The bytes `raw` written as a query value.
pub open spec fn query_encoded(raw: Seq<u8>) -> Seq<char>
    decreases raw.len(),
{
    if raw.len() == 0 {
        Seq::empty()
    } else {
        query_encoded(raw.drop_last()) + query_byte(raw.last())
    }
}

/// The bytes `raw` written as a query value.
pub fn encode_query(raw: &[u8]) -> (r: String)
    ensures
        r@ == query_encoded(raw@),
{
    let mut out = String::new();
    let mut i: usize = 0;
    while i < raw.len()
        invariant
            i <= raw@.len(),
            out@ == query_encoded(raw@.take(i as int)),
        decreases raw@.len() - i,
    {
        let b = raw[i];
        let b_is_escaped = b < 0x20 || b == 0x7f || b >= 0x80 || b == 0x3b || b == 0x2f || b == 0x3f
            || b == 0x40 || b == 0x26 || b == 0x3d || b == 0x2b || b == 0x24 || b == 0x2c;
        if b_is_escaped {
            out.append(percent_encode_byte(b));
        } else {
            push_char(&mut out, b as char);
        }
        assert(raw@.take(i + 1).drop_last() =~= raw@.take(i as int));
        i = i + 1;
    }
    assert(raw@.take(i as int) =~= raw@);
    out
}

/// `path` with `return_to` as the place to come back to.
pub fn add_to_path(path: &str, return_to: &str) -> (r: String)
    ensures
        r@ == path@ + "?returnto="@ + query_encoded(vstd::utf8::encode_utf8(return_to@)),
{
    let mut out = String::from_str(path);
    out.append("?returnto=");
    let encoded = encode_query(return_to.as_bytes());
    out.append(encoded.as_str());
    proof {
        reveal_strlit("?returnto=");
    }
    out
}

/// Where to send the user when they are done, if the request says.
pub struct ReturnTo {
    pub return_to: Option<String>,
}

impl ReturnTo {
    /// `path`, carrying on where to come back to if there is such a place.
    pub fn add_to_path(&self, path: &str) -> (r: String)
        ensures
            r@ == match self.return_to {
                Some(t) => path@ + "?returnto="@ + query_encoded(vstd::utf8::encode_utf8(t@)),
                None => path@,
            },
    {
        match &self.return_to {
            Some(return_to) => add_to_path(path, return_to.as_str()),
            None => String::from_str(path),
        }
    }

    /// Where to go back to: the root when the request does not say.
    pub fn path(&self) -> (r: &str)
        ensures
            r@ == match self.return_to {
                Some(t) => t@,
                None => "/"@,
            },
    {
        proof {
            reveal_strlit("/");
        }
        match &self.return_to {
            Some(return_to) => return_to.as_str(),
            None => "/",
        }
    }
}

} // verus!
