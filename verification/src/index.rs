//! The closed set of supported composite price indices, their selector
//! strings and their API symbols.

use vstd::prelude::*;
use vstd::string::StrSliceExecFns;
use vstd::string::StringExecFns;

verus! {

/// The index selector string is not one of the supported indices.
#[derive(Clone, Copy, Debug, PartialEq, Eq, Structural)]
pub struct ConfigError;

/// A composite price index tracked by the exchange.
#[derive(Clone, Copy, Debug, PartialEq, Eq, Structural)]
pub enum Index {
    Btc,
    Eth,
}

/// ASCII lowercasing of one character; anything but an ASCII capital
/// letter is left unchanged.
pub open spec fn lower_char(c: char) -> char {
    if 'A' <= c <= 'Z' {
        ((c as int) + 32) as char
    } else {
        c
    }
}

/// ASCII lowercasing of a character sequence.
pub open spec fn lower_seq(s: Seq<char>) -> Seq<char> {
    Seq::new(s.len(), |i: int| lower_char(s[i]))
}

/// The index a selector string names, if any. Selectors are matched
/// up to ASCII case.
pub open spec fn selector_index(s: Seq<char>) -> Option<Index> {
    let l = lower_seq(s);
    if l == "btc"@ || l == "bitcoin"@ {
        Some(Index::Btc)
    } else if l == "eth"@ || l == "ether"@ || l == "ethereum"@ {
        Some(Index::Eth)
    } else {
        None
    }
}

/// ASCII lowercasing of one character.
fn lower_char_exec(c: char) -> (r: char)
    ensures
        r == lower_char(c),
{
    match c {
        'A' => 'a',
        'B' => 'b',
        'C' => 'c',
        'D' => 'd',
        'E' => 'e',
        'F' => 'f',
        'G' => 'g',
        'H' => 'h',
        'I' => 'i',
        'J' => 'j',
        'K' => 'k',
        'L' => 'l',
        'M' => 'm',
        'N' => 'n',
        'O' => 'o',
        'P' => 'p',
        'Q' => 'q',
        'R' => 'r',
        'S' => 's',
        'T' => 't',
        'U' => 'u',
        'V' => 'v',
        'W' => 'w',
        'X' => 'x',
        'Y' => 'y',
        'Z' => 'z',
        _ => c,
    }
}

/// Decide whether `s`, lowercased, equals the selector `t`.
fn matches_selector(s: &str, t: &str) -> (r: bool)
    ensures
        r == (lower_seq(s@) == t@),
{
    let n = s.unicode_len();
    if n != t.unicode_len() {
        proof {
            assert(lower_seq(s@).len() == s@.len());
        }
        return false;
    }
    let mut i: usize = 0;
    while i < n
        invariant
            i <= n,
            n == s@.len(),
            n == t@.len(),
            forall|j: int| 0 <= j < i ==> lower_char(s@[j]) == t@[j],
        decreases n - i,
    {
        if lower_char_exec(s.get_char(i)) != t.get_char(i) {
            proof {
                assert(lower_seq(s@)[i as int] != t@[i as int]);
            }
            return false;
        }
        i += 1;
    }
    proof {
        assert(lower_seq(s@) =~= t@);
    }
    true
}

impl Index {
    /// The symbol under which the exchange lists this index.
    pub open spec fn spec_symbol(self) -> Seq<char> {
        match self {
            Index::Btc => "BXBT"@,
            Index::Eth => "BETH"@,
        }
    }

    pub fn as_bitmex_symbol(&self) -> (r: &str)
        ensures
            r@ == self.spec_symbol(),
    {
        match self {
            Index::Btc => "BXBT",
            Index::Eth => "BETH",
        }
    }

    /// Parse an index selector, accepting the supported names in any
    /// ASCII casing; anything else is a configuration error.
    pub fn from_str(s: &str) -> (r: Result<Index, ConfigError>)
        ensures
            match r {
                Ok(index) => selector_index(s@) == Some(index),
                Err(_) => selector_index(s@) is None,
            },
    {
        if matches_selector(s, "btc") || matches_selector(s, "bitcoin") {
            Ok(Index::Btc)
        } else if matches_selector(s, "eth") || matches_selector(s, "ether") || matches_selector(
            s,
            "ethereum",
        ) {
            Ok(Index::Eth)
        } else {
            Err(ConfigError)
        }
    }

    /// The query value that selects this composite index: a dot
    /// followed by the symbol.
    pub fn symbol_param(&self) -> (r: String)
        ensures
            r@ == "."@ + self.spec_symbol(),
    {
        ".".to_owned().concat(self.as_bitmex_symbol())
    }

    /// The JSON-encoded server-side filter restricting results to
    /// on-the-minute samples of this index.
    pub fn minute_filter_param(&self) -> (r: String)
        ensures
            r@ == "{\"symbol\": \"."@ + self.spec_symbol() + "\", \"timestamp.ss\": \"00\"}"@,
    {
        "{\"symbol\": \".".to_owned().concat(self.as_bitmex_symbol()).concat(
            "\", \"timestamp.ss\": \"00\"}",
        )
    }
}

/// The selector mapping is total and closed: a selector that
/// lowercases to one of the five supported names maps to exactly the
/// index listed here, and every other selector maps to none.
pub proof fn lemma_selector_mapping_total_and_closed(s: Seq<char>)
    ensures
        selector_index(s) == Some(Index::Btc) <==> (lower_seq(s) == "btc"@ || lower_seq(s)
            == "bitcoin"@),
        selector_index(s) == Some(Index::Eth) <==> (lower_seq(s) == "eth"@ || lower_seq(s)
            == "ether"@ || lower_seq(s) == "ethereum"@),
        selector_index(s) is None <==> !(lower_seq(s) == "btc"@ || lower_seq(s) == "bitcoin"@
            || lower_seq(s) == "eth"@ || lower_seq(s) == "ether"@ || lower_seq(s) == "ethereum"@),
{
    reveal_strlit("btc");
    reveal_strlit("bitcoin");
    reveal_strlit("eth");
    reveal_strlit("ethereum");
    reveal_strlit("ether");
    assert("eth"@ != "btc"@) by {
        assert("btc"@[0] != "eth"@[0]);
    }
    assert("eth"@ != "bitcoin"@) by {
        assert("eth"@.len() != "bitcoin"@.len());
    }
    assert("ether"@ != "btc"@) by {
        assert("ether"@.len() != "btc"@.len());
    }
    assert("ether"@ != "bitcoin"@) by {
        assert("ether"@.len() != "bitcoin"@.len());
    }
    assert("ethereum"@ != "btc"@) by {
        assert("ethereum"@.len() != "btc"@.len());
    }
    assert("ethereum"@ != "bitcoin"@) by {
        assert("ethereum"@.len() != "bitcoin"@.len());
    }
}

} // verus!
