//! ERC-721 mints joined with what the token contracts answer about them.
use crate::distinct::{distinct_bytes, distinct_of};
use crate::eth::{bytes_list_view, copy_bytes};
use vstd::prelude::*;

verus! {

/// A minted token: where it was minted, the token contract and id, and the token's URI and
/// the contract's symbol and name where the contract answered.
#[derive(Clone, Debug)]
pub struct Token {
    pub block_num: u64,
    pub tx_hash: Vec<u8>,
    pub log_index: u64,
    pub uri: Option<String>,
    pub symbol: Option<String>,
    pub name: Option<String>,
    pub contract: Vec<u8>,
    pub token_id: String,
}

/// Contents of a token.
pub struct TokenView {
    pub block_num: u64,
    pub tx_hash: Seq<u8>,
    pub log_index: u64,
    pub uri: Option<Seq<char>>,
    pub symbol: Option<Seq<char>>,
    pub name: Option<Seq<char>>,
    pub contract: Seq<u8>,
    pub token_id: Seq<char>,
}

/// Contents of an optional text.
pub open spec fn opt_text(t: Option<String>) -> Option<Seq<char>> {
    match t {
        Some(s) => Some(s@),
        None => None,
    }
}

impl View for Token {
    type V = TokenView;

    open spec fn view(&self) -> TokenView {
        TokenView {
            block_num: self.block_num,
            tx_hash: self.tx_hash@,
            log_index: self.log_index,
            uri: opt_text(self.uri),
            symbol: opt_text(self.symbol),
            name: opt_text(self.name),
            contract: self.contract@,
            token_id: self.token_id@,
        }
    }
}

/// Contents of a list of tokens.
pub open spec fn tokens_view(v: Seq<Token>) -> Seq<TokenView> {
    v.map_values(|t: Token| t@)
}

/// What one contract answered: its address, then its symbol and name.
pub type ContractAnswer = (Vec<u8>, Option<String>, Option<String>);

/// Contents of the contracts' answers.
pub open spec fn answers_view(v: Seq<ContractAnswer>) -> Seq<(Seq<u8>, Option<Seq<char>>, Option<Seq<char>>)> {
    v.map_values(|a: ContractAnswer| (a.0@, opt_text(a.1), opt_text(a.2)))
}

/// The symbol and name that `contract` answered: the last answer given for it, or none.
pub open spec fn symbol_and_name(
    answers: Seq<(Seq<u8>, Option<Seq<char>>, Option<Seq<char>>)>,
    contract: Seq<u8>,
) -> (Option<Seq<char>>, Option<Seq<char>>)
    decreases answers.len(),
{
    if answers.len() == 0 {
        (None, None)
    } else if answers.last().0 == contract {
        (answers.last().1, answers.last().2)
    } else {
        symbol_and_name(answers.drop_last(), contract)
    }
}

/// A mint completed with its URI and its contract's symbol and name.
pub open spec fn token_of(
    mint: TokenView,
    uri: Option<Seq<char>>,
    answers: Seq<(Seq<u8>, Option<Seq<char>>, Option<Seq<char>>)>,
) -> TokenView {
    TokenView {
        block_num: mint.block_num,
        tx_hash: mint.tx_hash,
        log_index: mint.log_index,
        uri,
        symbol: symbol_and_name(answers, mint.contract).0,
        name: symbol_and_name(answers, mint.contract).1,
        contract: mint.contract,
        token_id: mint.token_id,
    }
}

fn copy_text(t: &Option<String>) -> (r: Option<String>)
    ensures
        opt_text(r) == opt_text(*t),
{
    match t {
        Some(s) => Some(s.clone()),
        None => None,
    }
}

fn find_symbol_and_name(answers: &Vec<ContractAnswer>, contract: &Vec<u8>) -> (r: (Option<String>, Option<String>))
    ensures
        (opt_text(r.0), opt_text(r.1)) == symbol_and_name(answers_view(answers@), contract@),
{
    let ghost av = answers_view(answers@);
    let mut i: usize = answers.len();
    assert(av.take(i as int) =~= av);
    while i > 0
        invariant
            av == answers_view(answers@),
            i <= answers.len(),
            symbol_and_name(av, contract@) == symbol_and_name(av.take(i as int), contract@),
        decreases i,
    {
        let a = &answers[i - 1];
        proof {
            assert(av.take(i as int).drop_last() =~= av.take(i - 1));
            assert(av[i - 1] == (a.0@, opt_text(a.1), opt_text(a.2)));
        }
        if crate::keccak_map::bytes_eq(a.0.as_slice(), contract.as_slice()) {
            return (copy_text(&a.1), copy_text(&a.2));
        }
        i -= 1;
    }
    (None, None)
}

/// The minted tokens completed with what their contracts answered: each token keeps its
/// mint's block, transaction, log index, contract and id, takes the URI answered for it
/// (`uris`, one per mint) and the symbol and name that its contract answered (`answers`;
/// none where the contract is not among them).
pub fn tokens_of(mints: &Vec<Token>, uris: &Vec<Option<String>>, answers: &Vec<ContractAnswer>) -> (r: Vec<Token>)
    requires
        uris.len() == mints.len(),
    ensures
        r.len() == mints.len(),
        forall|i: int|
            0 <= i < mints.len() ==> #[trigger] r@[i]@ == token_of(mints@[i]@, opt_text(uris@[i]), answers_view(answers@)),
{
    let mut out: Vec<Token> = Vec::new();
    let mut i: usize = 0;
    while i < mints.len()
        invariant
            uris.len() == mints.len(),
            i <= mints.len(),
            out.len() == i,
            forall|k: int|
                0 <= k < i ==> #[trigger] out@[k]@ == token_of(mints@[k]@, opt_text(uris@[k]), answers_view(answers@)),
        decreases mints.len() - i,
    {
        let mint = &mints[i];
        let (symbol, name) = find_symbol_and_name(answers, &mint.contract);
        let token = Token {
            block_num: mint.block_num,
            tx_hash: copy_bytes(&mint.tx_hash),
            log_index: mint.log_index,
            uri: copy_text(&uris[i]),
            symbol,
            name,
            contract: copy_bytes(&mint.contract),
            token_id: mint.token_id.clone(),
        };
        out.push(token);
        i += 1;
    }
    out
}

/// The token contracts of the mints, each once, in order of first mint.
pub fn mint_contracts(mints: &Vec<Token>) -> (r: Vec<Vec<u8>>)
    ensures
        bytes_list_view(r@) == distinct_of(mints@.map_values(|t: Token| t.contract@)),
{
    let mut all: Vec<Vec<u8>> = Vec::new();
    let mut i: usize = 0;
    while i < mints.len()
        invariant
            i <= mints.len(),
            bytes_list_view(all@) == mints@.take(i as int).map_values(|t: Token| t.contract@),
        decreases mints.len() - i,
    {
        let ghost before = all@;
        let c = copy_bytes(&mints[i].contract);
        all.push(c);
        proof {
            assert(all@ == before.push(c));
            assert(bytes_list_view(all@) =~= bytes_list_view(before).push(c@));
            assert(mints@.take(i + 1).map_values(|t: Token| t.contract@) =~= mints@.take(i as int).map_values(
                |t: Token| t.contract@,
            ).push(mints@[i as int].contract@));
        }
        i += 1;
    }
    assert(mints@.take(mints.len() as int) =~= mints@);
    distinct_bytes(&all)
}

} // verus!
