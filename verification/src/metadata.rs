//! Token metadata read from contract calls: cleaning names and symbols, and choosing
//! between the two ways a token can answer.
use vstd::prelude::*;

verus! {

/// Whether `c` has the Unicode `White_Space` property, which `char::is_whitespace` and
/// `str::trim` go by.
pub open spec fn is_unicode_whitespace(c: char) -> bool {
    let u = c as u32;
    ||| 0x09 <= u <= 0x0D
    ||| u == 0x20
    ||| u == 0x85
    ||| u == 0xA0
    ||| u == 0x1680
    ||| 0x2000 <= u <= 0x200A
    ||| u == 0x2028
    ||| u == 0x2029
    ||| u == 0x202F
    ||| u == 0x205F
    ||| u == 0x3000
}

/// Whether `c` has the Unicode `White_Space` property.
pub fn is_whitespace(c: char) -> (r: bool)
    ensures
        r == is_unicode_whitespace(c),
{
    let u = c as u32;
    (0x09 <= u && u <= 0x0D) || u == 0x20 || u == 0x85 || u == 0xA0 || u == 0x1680 || (0x2000
        <= u && u <= 0x200A) || u == 0x2028 || u == 0x2029 || u == 0x202F || u == 0x205F || u
        == 0x3000
}

/// `s` without its leading whitespace.
pub open spec fn trim_start_ws(s: Seq<char>) -> Seq<char>
    decreases s.len(),
{
    if s.len() > 0 && is_unicode_whitespace(s[0]) {
        trim_start_ws(s.drop_first())
    } else {
        s
    }
}

/// `s` without its trailing whitespace.
pub open spec fn trim_end_ws(s: Seq<char>) -> Seq<char>
    decreases s.len(),
{
    if s.len() > 0 && is_unicode_whitespace(s.last()) {
        trim_end_ws(s.drop_last())
    } else {
        s
    }
}

/// `s` without its trailing NUL characters.
pub open spec fn trim_end_nul(s: Seq<char>) -> Seq<char>
    decreases s.len(),
{
    if s.len() > 0 && s.last() == '\0' {
        trim_end_nul(s.drop_last())
    } else {
        s
    }
}

/// The text a token returns once cleaned: whitespace trimmed at both ends, then trailing
/// NUL characters removed.
pub open spec fn cleaned(s: Seq<char>) -> Seq<char> {
    trim_end_nul(trim_end_ws(trim_start_ws(s)))
}

/// The cleaned text, or nothing when it is empty.
pub open spec fn parsed(s: Seq<char>) -> Option<Seq<char>> {
    if cleaned(s).len() > 0 {
        Some(cleaned(s))
    } else {
        None
    }
}

/// Trims whitespace at both ends, then trailing NUL characters; `None` when nothing is
/// left.
pub fn parse_string(str: &str) -> (r: Option<String>)
    ensures
        match (r, parsed(str@)) {
            (Some(t), Some(v)) => t@ == v,
            (None, None) => true,
            _ => false,
        },
{
    let ghost s = str@;
    let n = str.unicode_len();
    let mut a: usize = 0;
    assert(s.subrange(0, n as int) =~= s);
    while a < n && is_whitespace(str.get_char(a))
        invariant
            s == str@,
            n == s.len(),
            a <= n,
            trim_start_ws(s) == trim_start_ws(s.subrange(a as int, n as int)),
        decreases n - a,
    {
        proof {
            assert(s.subrange(a as int, n as int).drop_first() =~= s.subrange(a + 1, n as int));
        }
        a += 1;
    }
    proof {
        assert(trim_start_ws(s) == s.subrange(a as int, n as int));
    }
    let mut b: usize = n;
    while b > a && is_whitespace(str.get_char(b - 1))
        invariant
            s == str@,
            n == s.len(),
            a <= b <= n,
            trim_end_ws(trim_start_ws(s)) == trim_end_ws(s.subrange(a as int, b as int)),
        decreases b,
    {
        proof {
            assert(s.subrange(a as int, b as int).drop_last() =~= s.subrange(a as int, b - 1));
        }
        b -= 1;
    }
    proof {
        assert(trim_end_ws(trim_start_ws(s)) == s.subrange(a as int, b as int));
    }
    while b > a && str.get_char(b - 1) == '\0'
        invariant
            s == str@,
            n == s.len(),
            a <= b <= n,
            cleaned(s) == trim_end_nul(s.subrange(a as int, b as int)),
        decreases b,
    {
        proof {
            assert(s.subrange(a as int, b as int).drop_last() =~= s.subrange(a as int, b - 1));
        }
        b -= 1;
    }
    proof {
        assert(cleaned(s) == s.subrange(a as int, b as int));
    }
    if a < b {
        Some(String::from_str(str.substring_char(a, b)))
    } else {
        None
    }
}

proof fn lemma_trim_start_ws(s: Seq<char>)
    ensures
        trim_start_ws(s).len() > 0 ==> !is_unicode_whitespace(trim_start_ws(s)[0]),
    decreases s.len(),
{
    if s.len() > 0 && is_unicode_whitespace(s[0]) {
        lemma_trim_start_ws(s.drop_first());
    }
}

proof fn lemma_trim_end_keeps_first(s: Seq<char>)
    ensures
        trim_end_ws(s).len() <= s.len(),
        s.len() > 0 && !is_unicode_whitespace(s[0]) ==> trim_end_ws(s).len() > 0 && trim_end_ws(s)[0] == s[0],
    decreases s.len(),
{
    if s.len() > 0 && is_unicode_whitespace(s.last()) {
        lemma_trim_end_keeps_first(s.drop_last());
    }
}

proof fn lemma_trim_end_nul(s: Seq<char>)
    ensures
        trim_end_nul(s).len() > 0 ==> trim_end_nul(s)[0] == s[0] && trim_end_nul(s).last() != '\0',
    decreases s.len(),
{
    if s.len() > 0 && s.last() == '\0' {
        lemma_trim_end_nul(s.drop_last());
    }
}

/// A name or symbol that parses is never empty, never starts with whitespace and never
/// ends with a NUL character.
pub proof fn lemma_parsed_is_clean(s: Seq<char>)
    ensures
        parsed(s) matches Some(t) ==> t.len() > 0 && !is_unicode_whitespace(t[0]) && t.last() != '\0',
{
    let a = trim_start_ws(s);
    let b = trim_end_ws(a);
    lemma_trim_start_ws(s);
    lemma_trim_end_keeps_first(a);
    lemma_trim_end_nul(b);
    if cleaned(s).len() > 0 {
        assert(b.len() > 0);
        assert(a.len() > 0);
    }
}

/// Contents of an optional text.
pub open spec fn opt_text(v: Option<String>) -> Option<Seq<char>> {
    match v {
        Some(t) => Some(t@),
        None => None,
    }
}

/// The name of a token from its two answers: the `name()` string once cleaned, else the
/// `bytes32` form as text when it is not empty.
pub open spec fn name_choice(erc20_name: Option<Seq<char>>, bytes32_name: Option<Seq<char>>) -> Option<Seq<char>> {
    match erc20_name {
        Some(n) if parsed(n) is Some => parsed(n),
        _ => match bytes32_name {
            Some(n) if n.len() > 0 => Some(n),
            _ => None,
        },
    }
}

/// The symbol of a token from its two answers: the `symbol()` string once cleaned, else
/// the `bytes32` form as text once cleaned.
pub open spec fn symbol_choice(erc20_symbol: Option<Seq<char>>, bytes32_symbol: Option<Seq<char>>) -> Option<Seq<char>> {
    match erc20_symbol {
        Some(n) if parsed(n) is Some => parsed(n),
        _ => match bytes32_symbol {
            Some(n) => parsed(n),
            None => None,
        },
    }
}

/// Chooses the name of a token from what its `name()` call decoded to as a string and,
/// for tokens that return `bytes32`, that value as text.
pub fn pick_name(erc20_name: Option<String>, bytes32_name: Option<String>) -> (r: Option<String>)
    ensures
        opt_text(r) == name_choice(opt_text(erc20_name), opt_text(bytes32_name)),
{
    if let Some(name) = erc20_name {
        if let Some(n) = parse_string(name.as_str()) {
            return Some(n);
        }
    }
    if let Some(name) = bytes32_name {
        if !name.as_str().is_empty() {
            return Some(name);
        }
    }
    None
}

/// Chooses the symbol of a token from what its `symbol()` call decoded to as a string
/// and, for tokens that return `bytes32`, that value as text.
pub fn pick_symbol(erc20_symbol: Option<String>, bytes32_symbol: Option<String>) -> (r: Option<String>)
    ensures
        opt_text(r) == symbol_choice(opt_text(erc20_symbol), opt_text(bytes32_symbol)),
{
    if let Some(symbol) = erc20_symbol {
        if let Some(n) = parse_string(symbol.as_str()) {
            return Some(n);
        }
    }
    if let Some(symbol) = bytes32_symbol {
        return parse_string(symbol.as_str());
    }
    None
}

/// The first metadata of a token contract.
#[derive(Clone, Debug)]
pub struct MetadataInitialize {
    pub address: Vec<u8>,
    pub decimals: i32,
    pub symbol: Option<String>,
    pub name: Option<String>,
}

/// What a token contract answered: its decimals, symbol and name, when read.
#[derive(Clone, Debug)]
pub struct TokenAnswers {
    pub address: Vec<u8>,
    pub decimals: Option<i32>,
    pub symbol: Option<String>,
    pub name: Option<String>,
}

/// Whether `m` initializes the metadata of the contract that gave the answers `a`.
pub open spec fn initializes(m: MetadataInitialize, a: TokenAnswers) -> bool {
    &&& a.decimals == Some(m.decimals)
    &&& m.address@ == a.address@
    &&& opt_text(m.symbol) == opt_text(a.symbol)
    &&& opt_text(m.name) == opt_text(a.name)
}

/// The answers with decimals, in order: the contracts that the metadata is initialized
/// for.
pub open spec fn with_decimals(answers: Seq<TokenAnswers>) -> Seq<TokenAnswers>
    decreases answers.len(),
{
    if answers.len() == 0 {
        Seq::empty()
    } else if answers.last().decimals is Some {
        with_decimals(answers.drop_last()).push(answers.last())
    } else {
        with_decimals(answers.drop_last())
    }
}

/// The metadata initialized for each contract whose decimals were read; a contract
/// without decimals is left out, as the decimals are required.
pub fn initialize_metadata(answers: Vec<TokenAnswers>) -> (r: Vec<MetadataInitialize>)
    ensures
        r.len() == with_decimals(answers@).len(),
        forall|k: int| 0 <= k < r.len() ==> initializes(#[trigger] r@[k], with_decimals(answers@)[k]),
{
    let mut out: Vec<MetadataInitialize> = Vec::new();
    let mut i: usize = 0;
    while i < answers.len()
        invariant
            i <= answers.len(),
            out.len() == with_decimals(answers@.take(i as int)).len(),
            forall|k: int| 0 <= k < out.len() ==> initializes(#[trigger] out@[k], with_decimals(answers@.take(i as int))[k]),
        decreases answers.len() - i,
    {
        proof {
            assert(answers@.take(i + 1).drop_last() =~= answers@.take(i as int));
        }
        let a = &answers[i];
        if let Some(decimals) = a.decimals {
            out.push(MetadataInitialize {
                address: crate::eth::copy_bytes(&a.address),
                decimals,
                symbol: a.symbol.clone(),
                name: a.name.clone(),
            });
        }
        i += 1;
    }
    assert(answers@.take(answers.len() as int) =~= answers@);
    out
}

} // verus!
