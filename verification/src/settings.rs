//! The server's settings where the user gives none, and how it announces itself.
use vstd::prelude::*;

verus! {

/// The port to listen on.
pub const DEFAULT_PORT: u16 = 8080;

/// The directory to serve files from.
pub const DEFAULT_ROOT: &'static str = "./public";

/// The entry file of a single page application, seen from the root directory.
pub const DEFAULT_SPA_ENTRY: &'static str = "index.html";

/// The routes that files are served at.
pub const FILE_ROUTE: &'static str = "/*path";

const DIGITS: &'static str = "0123456789";

/// `n` in decimal digits, without leading zeros.
pub open spec fn decimal_text(n: nat) -> Seq<char>
    decreases n,
{
    if n < 10 {
        seq!["0123456789"@[n as int]]
    } else {
        decimal_text(n / 10).push("0123456789"@[(n % 10) as int])
    }
}

/// `n` in decimal digits, without leading zeros.
pub fn decimal(n: u16) -> (text: String)
    ensures
        text@ == decimal_text(n as nat),
    decreases n,
{
    proof {
        reveal_strlit("0123456789");
    }
    let d: usize = (n % 10) as usize;
    let digit = DIGITS.substring_char(d, d + 1);
    assert(digit@ == seq!["0123456789"@[d as int]]);
    let mut text = if n < 10 {
        String::new()
    } else {
        decimal(n / 10)
    };
    text.append(digit);
    text
}

/// The line that tells where the entry file is served.
pub fn serving_line(port: u16, spa_entry: &str) -> (line: String)
    ensures
        line@ == "Serving at http://0.0.0.0:"@ + decimal_text(port as nat) + "/"@ + spa_entry@,
{
    let mut line = "Serving at http://0.0.0.0:".to_owned();
    line.append(decimal(port).as_str());
    line.append("/");
    line.append(spa_entry);
    line
}

} // verus!
