//! The final status of a call and its form as trailing metadata.

use vstd::prelude::*;
use crate::metadata::{Entries, MetadataMap};

verus! {

/// Status code of a call that succeeded.
pub const OK: u32 = 0;

/// Status code of a call for which no handler exists.
pub const UNIMPLEMENTED: u32 = 12;

/// The decimal digit that stands for `d`.
pub open spec fn digit(d: nat) -> char {
    if d == 0 {
        '0'
    } else if d == 1 {
        '1'
    } else if d == 2 {
        '2'
    } else if d == 3 {
        '3'
    } else if d == 4 {
        '4'
    } else if d == 5 {
        '5'
    } else if d == 6 {
        '6'
    } else if d == 7 {
        '7'
    } else if d == 8 {
        '8'
    } else {
        '9'
    }
}

/// `n` written in decimal, without leading zeros.
pub open spec fn decimal_digits(n: nat) -> Seq<char>
    decreases n,
{
    if n < 10 {
        seq![digit(n)]
    } else {
        decimal_digits(n / 10).push(digit(n % 10))
    }
}

/// The trailing metadata that carries a status: the code under
/// `grpc-status`, and the message under `grpc-message` unless it is empty.
pub open spec fn status_entries(code: u32, message: Seq<char>) -> Entries {
    let head = seq![("grpc-status"@, decimal_digits(code as nat))];
    if message.len() == 0 {
        head
    } else {
        head.push(("grpc-message"@, message))
    }
}

fn digit_str(d: u32) -> (s: &'static str)
    requires
        d < 10,
    ensures
        s@ == seq![digit(d as nat)],
{
    proof {
        reveal_strlit("0");
        reveal_strlit("1");
        reveal_strlit("2");
        reveal_strlit("3");
        reveal_strlit("4");
        reveal_strlit("5");
        reveal_strlit("6");
        reveal_strlit("7");
        reveal_strlit("8");
        reveal_strlit("9");
    }
    let s = if d == 0 {
        "0"
    } else if d == 1 {
        "1"
    } else if d == 2 {
        "2"
    } else if d == 3 {
        "3"
    } else if d == 4 {
        "4"
    } else if d == 5 {
        "5"
    } else if d == 6 {
        "6"
    } else if d == 7 {
        "7"
    } else if d == 8 {
        "8"
    } else {
        "9"
    };
    assert(s@ =~= seq![digit(d as nat)]);
    s
}

/// Writes `n` in decimal.
pub fn decimal(n: u32) -> (s: String)
    ensures
        s@ == decimal_digits(n as nat),
    decreases n,
{
    if n < 10 {
        String::from_str(digit_str(n))
    } else {
        let mut s = decimal(n / 10);
        s.append(digit_str(n % 10));
        assert(s@ =~= decimal_digits(n as nat));
        s
    }
}

/// The status a call ends with: a numeric code and a message for people.
#[derive(Debug, PartialEq, Eq)]
pub struct Status {
    code: u32,
    message: String,
}

impl Status {
    /// The numeric code, as a spec value.
    pub closed spec fn spec_code(&self) -> u32 {
        self.code
    }

    /// The message, as a spec value.
    pub closed spec fn spec_message(&self) -> Seq<char> {
        self.message@
    }

    /// A status with the given code and message.
    pub fn new(code: u32, message: &str) -> (s: Self)
        ensures
            s.spec_code() == code,
            s.spec_message() == message@,
    {
        Status { code, message: String::from_str(message) }
    }

    /// The status of a call to a method that nothing is registered for.
    pub fn unimplemented() -> (s: Self)
        ensures
            s.spec_code() == UNIMPLEMENTED,
            s.spec_message().len() == 0,
    {
        Status { code: UNIMPLEMENTED, message: String::new() }
    }

    /// The numeric code.
    #[verifier::when_used_as_spec(spec_code)]
    pub fn code(&self) -> (c: u32)
        ensures
            c == self.spec_code(),
    {
        self.code
    }

    /// The message.
    pub fn message(&self) -> (m: &str)
        ensures
            m@ == self.spec_message(),
    {
        self.message.as_str()
    }

    /// The trailing metadata that reports this status.
    pub fn to_trailers(&self) -> (t: MetadataMap)
        ensures
            t@ == status_entries(self.spec_code(), self.spec_message()),
    {
        let mut t = MetadataMap::new();
        let code = decimal(self.code);
        t.append("grpc-status", code.as_str());
        if !self.message.as_str().is_empty() {
            t.append("grpc-message", self.message.as_str());
        }
        assert(t@ =~= status_entries(self.spec_code(), self.spec_message()));
        t
    }
}

impl Clone for Status {
    fn clone(&self) -> (s: Self)
        ensures
            s == *self,
    {
        Status { code: self.code, message: self.message.clone() }
    }
}

} // verus!
