//! Checking what a user types before joining or hosting a server.
use vstd::prelude::*;

verus! {

/// Why typed input cannot be used.
#[derive(Debug, Clone, Copy, PartialEq, Eq, Structural)]
pub enum LobbyInputError {
    EmptyAddress,
    EmptyUsername,
    InvalidPort,
}

impl LobbyInputError {
    /// The message shown to the user.
    pub fn message(&self) -> (text: String)
        ensures
            text@ == match self {
                LobbyInputError::EmptyAddress => "Address cannot be empty"@,
                LobbyInputError::EmptyUsername => "Username cannot be empty"@,
                LobbyInputError::InvalidPort => "Invalid port"@,
            },
    {
        match self {
            LobbyInputError::EmptyAddress => String::from_str("Address cannot be empty"),
            LobbyInputError::EmptyUsername => String::from_str("Username cannot be empty"),
            LobbyInputError::InvalidPort => String::from_str("Invalid port"),
        }
    }
}

/// Whether a character is a decimal digit.
pub open spec fn is_digit(c: char) -> bool {
    '0' <= c && c <= '9'
}

/// The number that a string of decimal digits denotes.
pub open spec fn decimal_value(digits: Seq<char>) -> int
    decreases digits.len(),
{
    if digits.len() == 0 {
        0
    } else {
        decimal_value(digits.drop_last()) * 10 + (digits.last() as int - '0' as int)
    }
}

/// The digits of a number as Rust writes it for `u16`'s `from_str`: an optional `+` sign
/// followed by the digits.
pub open spec fn unsigned_digits(text: Seq<char>) -> Seq<char> {
    if text.len() > 0 && text[0] == '+' {
        text.drop_first()
    } else {
        text
    }
}

/// The port number `text` denotes, as `u16`'s `from_str` reads it: one or more decimal
/// digits, optionally after a `+`, with a value that fits in a `u16`.
pub open spec fn port_of(text: Seq<char>) -> Option<u16> {
    let digits = unsigned_digits(text);
    if digits.len() > 0 && (forall|i: int| 0 <= i < digits.len() ==> is_digit(#[trigger] digits[i]))
        && decimal_value(digits) <= 65535 {
        Some(decimal_value(digits) as u16)
    } else {
        None
    }
}

proof fn lemma_decimal_value_nonnegative(digits: Seq<char>)
    requires
        forall|i: int| 0 <= i < digits.len() ==> is_digit(#[trigger] digits[i]),
    ensures
        decimal_value(digits) >= 0,
    decreases digits.len(),
{
    if digits.len() > 0 {
        let rest = digits.drop_last();
        assert forall|i: int| 0 <= i < rest.len() implies is_digit(#[trigger] rest[i]) by {
            assert(rest[i] == digits[i]);
        }
        lemma_decimal_value_nonnegative(rest);
        assert(is_digit(digits[digits.len() - 1]));
    }
}

proof fn lemma_decimal_value_grows(digits: Seq<char>, k: int)
    requires
        0 <= k <= digits.len(),
        forall|i: int| 0 <= i < digits.len() ==> is_digit(#[trigger] digits[i]),
    ensures
        decimal_value(digits.take(k)) <= decimal_value(digits),
    decreases digits.len() - k,
{
    if k < digits.len() {
        lemma_decimal_value_grows(digits, k + 1);
        assert(digits.take(k + 1).drop_last() =~= digits.take(k));
        let prefix = digits.take(k);
        assert forall|i: int| 0 <= i < prefix.len() implies is_digit(#[trigger] prefix[i]) by {
            assert(prefix[i] == digits[i]);
        }
        lemma_decimal_value_nonnegative(prefix);
        assert(is_digit(digits[k]));
    } else {
        assert(digits.take(k) =~= digits);
    }
}

/// The port number `text` denotes, if it denotes one (see `port_of`).
pub fn parse_port(text: &str) -> (port: Option<u16>)
    ensures
        port == port_of(text@),
{
    let len = text.unicode_len();
    let mut start: usize = 0;
    if len > 0 && text.get_char(0) == '+' {
        start = 1;
    }
    let ghost digits = unsigned_digits(text@);
    proof {
        assert(digits =~= text@.subrange(start as int, len as int));
    }
    if start >= len {
        return None;
    }
    let mut value: u32 = 0;
    let mut i: usize = start;
    while i < len
        invariant
            start <= i <= len,
            len == text@.len(),
            digits == text@.subrange(start as int, len as int),
            digits == unsigned_digits(text@),
            forall|j: int| 0 <= j < i - start ==> is_digit(#[trigger] digits[j]),
            value as int == decimal_value(digits.take(i - start)),
            value <= 65535,
        decreases len - i,
    {
        let c = text.get_char(i);
        proof {
            assert(digits[i - start] == c);
            assert(digits.take(i - start + 1).drop_last() =~= digits.take(i - start));
        }
        if c < '0' || c > '9' {
            proof {
                assert(!is_digit(digits[i - start]));
            }
            return None;
        }
        let digit = (c as u32) - ('0' as u32);
        if value > 6553 || value * 10 + digit > 65535 {
            proof {
                assert(decimal_value(digits.take(i - start + 1)) > 65535);
                if forall|j: int| 0 <= j < digits.len() ==> is_digit(#[trigger] digits[j]) {
                    lemma_decimal_value_grows(digits, i - start + 1);
                    assert(decimal_value(digits) > 65535);
                }
                assert(port_of(text@) is None);
            }
            return None;
        }
        value = value * 10 + digit;
        i = i + 1;
    }
    proof {
        assert(digits.take(len - start) =~= digits);
    }
    Some(value as u16)
}

/// What a player typed to host a server: a username (which must not be empty) and a port
/// (blank for a port the system picks, written as 0).
pub fn host_settings(username: &str, port: &str) -> (result: Result<u16, LobbyInputError>)
    ensures
        username@.len() == 0 ==> result == Err::<u16, LobbyInputError>(LobbyInputError::EmptyUsername),
        username@.len() != 0 && port@.len() == 0 ==> result == Ok::<u16, LobbyInputError>(0),
        username@.len() != 0 && port@.len() != 0 ==> result == match port_of(port@) {
            Some(p) => Ok::<u16, LobbyInputError>(p),
            None => Err(LobbyInputError::InvalidPort),
        },
{
    if username.unicode_len() == 0 {
        return Err(LobbyInputError::EmptyUsername);
    }
    if port.unicode_len() == 0 {
        return Ok(0);
    }
    match parse_port(port) {
        Some(p) => Ok(p),
        None => Err(LobbyInputError::InvalidPort),
    }
}

/// What a player typed to join a server: the address must not be empty.
pub fn check_join_address(address: &str) -> (result: Result<(), LobbyInputError>)
    ensures
        result is Ok <==> address@.len() != 0,
        result is Err ==> result == Err::<(), LobbyInputError>(LobbyInputError::EmptyAddress),
{
    if address.unicode_len() == 0 {
        Err(LobbyInputError::EmptyAddress)
    } else {
        Ok(())
    }
}

} // verus!
