//! Shell-safe quoting, timeouts wrapped into the command text, and the
//! random suffix of scratch file names.
use vstd::prelude::*;
use crate::text::{decimal, push_decimal, push_text};
use rand::RngCore;

verus! {

/// The characters that need no quoting in a POSIX shell word.
pub open spec fn shell_safe(c: char) -> bool {
    ('a' <= c && c <= 'z') || ('A' <= c && c <= 'Z') || ('0' <= c && c <= '9') || c == '-' || c == '_'
        || c == '=' || c == '/' || c == ',' || c == '.' || c == '+'
}

/// The characters of `s` inside single quotes: `'` and `!` leave the quotes
/// and come back escaped.
pub open spec fn quote_body(s: Seq<char>) -> Seq<char>
    decreases s.len(),
{
    if s.len() == 0 {
        Seq::empty()
    } else {
        let c = s.last();
        quote_body(s.drop_last()) + if c == '\'' || c == '!' {
            seq!['\'', '\\', c, '\'']
        } else {
            seq![c]
        }
    }
}

/// `s` as one shell word: unchanged where every character is safe and it is
/// not empty, else single-quoted.
pub open spec fn shell_quoted(s: Seq<char>) -> Seq<char> {
    if s.len() > 0 && forall|i: int| 0 <= i < s.len() ==> shell_safe(#[trigger] s[i]) {
        s
    } else {
        seq!['\''] + quote_body(s) + seq!['\'']
    }
}

/// Relies on `shell_escape::unix::escape`: quotes a string as one word of a
/// POSIX shell.
#[verifier::external_body]
pub(crate) fn escape(s: &str) -> (r: String)
    ensures
        r@ == shell_quoted(s@),
{
    shell_escape::unix::escape(s.into()).into_owned()
}

/// `cmd` run under a remote `timeout` guard of `seconds`.
pub open spec fn with_timeout(cmd: Seq<char>, seconds: nat) -> Seq<char> {
    "timeout "@ + decimal(seconds) + "s sh -lc "@ + shell_quoted(cmd)
}

pub fn wrap_timeout(cmd: &str, seconds: u64) -> (r: String)
    ensures
        r@ == with_timeout(cmd@, seconds as nat),
{
    let mut s = String::new();
    push_text(&mut s, "timeout ");
    push_decimal(&mut s, seconds);
    push_text(&mut s, "s sh -lc ");
    let q = escape(cmd);
    push_text(&mut s, q.as_str());
    assert(s@ =~= with_timeout(cmd@, seconds as nat));
    s
}

pub open spec fn hex_digit(d: u8) -> char {
    if d < 10 {
        (('0' as u8) + d) as char
    } else {
        (('a' as u8) + d - 10) as char
    }
}

/// Two lower-case hexadecimal digits per byte, high half first.
pub open spec fn hex_of(b: Seq<u8>) -> Seq<char>
    decreases b.len(),
{
    if b.len() == 0 {
        Seq::empty()
    } else {
        hex_of(b.drop_last()) + seq![hex_digit(b.last() / 16), hex_digit(b.last() % 16)]
    }
}

/// Relies on `hex::encode`: lower-case hexadecimal, two digits per byte.
#[verifier::external_body]
fn hex_encode(b: &[u8]) -> (r: String)
    ensures
        r@ == hex_of(b@),
{
    hex::encode(b)
}

/// Relies on `rand::rngs::OsRng` (`RngCore::try_fill_bytes`): four bytes
/// from the operating system's entropy source, or the source's error.
#[verifier::external_body]
fn os_random_word() -> Result<[u8; 4], String> {
    let mut buf = [0u8; 4];
    match rand::rngs::OsRng.try_fill_bytes(&mut buf) {
        Ok(()) => Ok(buf),
        Err(e) => Err(e.to_string()),
    }
}

/// Eight hexadecimal digits of fresh randomness (32 bits), or why the
/// operating system could give none.
pub fn rand_suffix() -> (r: Result<String, String>)
    ensures
        r matches Ok(s) ==> exists|b: Seq<u8>| b.len() == 4 && s@ == hex_of(b),
{
    match os_random_word() {
        Ok(w) => {
            let r = hex_encode(&w);
            assert(w@.len() == 4);
            Ok(r)
        },
        Err(e) => Err(e),
    }
}

} // verus!
