use crate::text::{push_char, push_str};
use vstd::prelude::*;

verus! {

/// The character of decimal digit `d`.
pub open spec fn digit_char(d: nat) -> char {
    seq!['0', '1', '2', '3', '4', '5', '6', '7', '8', '9'][d as int]
}

/// `n` written in decimal, without leading zeros.
pub open spec fn decimal(n: nat) -> Seq<char>
    decreases n,
{
    if n < 10 {
        seq![digit_char(n)]
    } else {
        decimal(n / 10).push(digit_char(n % 10))
    }
}

fn digit(d: u16) -> (c: char)
    requires
        d < 10,
    ensures
        c == digit_char(d as nat),
{
    match d {
        0 => '0',
        1 => '1',
        2 => '2',
        3 => '3',
        4 => '4',
        5 => '5',
        6 => '6',
        7 => '7',
        8 => '8',
        _ => '9',
    }
}

/// Appends `n` in decimal.
pub fn push_decimal(s: &mut String, n: u16)
    ensures
        final(s)@ == old(s)@ + decimal(n as nat),
    decreases n,
{
    if n >= 10 {
        push_decimal(s, n / 10);
    }
    push_char(s, digit(n % 10));
    assert(final(s)@ =~= old(s)@ + decimal(n as nat));
}

/// Where the HTTP server listens, and the URL it is reached at.
pub struct ApplicationSettings {
    pub host: String,
    pub port: u16,
    pub base_url: String,
}

impl ApplicationSettings {
    /// `host:port`, the address to bind.
    pub fn addr(&self) -> (r: String)
        ensures
            r@ == self.host@ + seq![':'] + decimal(self.port as nat),
    {
        let mut r = self.host.clone();
        push_char(&mut r, ':');
        push_decimal(&mut r, self.port);
        r
    }
}

/// Which configuration file overlays the base one.
#[derive(Debug, Clone, Copy, PartialEq, Eq, Structural)]
pub enum Environment {
    Local,
    Production,
}

impl Environment {
    pub open spec fn name(&self) -> Seq<char> {
        match self {
            Environment::Local => "local"@,
            Environment::Production => "production"@,
        }
    }

    pub fn as_str(&self) -> (r: &'static str)
        ensures
            r@ == self.name(),
    {
        match self {
            Environment::Local => "local",
            Environment::Production => "production",
        }
    }

    /// Reads `local` or `production`; anything else is refused with a hint.
    pub fn parse(s: String) -> (r: Result<Environment, String>)
        ensures
            s@ == "local"@ ==> r == Ok::<Environment, String>(Environment::Local),
            s@ == "production"@ ==> r == Ok::<Environment, String>(Environment::Production),
            s@ != "local"@ && s@ != "production"@ ==> (r matches Err(m) && m@ == s@
                + " is not valid env variable, \n Help: Use either `local` or `production`"@),
    {
        proof {
            reveal_strlit("local");
            reveal_strlit("production");
            assert("local"@.len() != "production"@.len());
        }
        let local = String::from_str("local");
        let production = String::from_str("production");
        if s == local {
            Ok(Environment::Local)
        } else if s == production {
            Ok(Environment::Production)
        } else {
            let mut m = s;
            push_str(&mut m, " is not valid env variable, \n Help: Use either `local` or `production`");
            Err(m)
        }
    }
}

} // verus!
