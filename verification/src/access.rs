//! Who may delete an entry: the one who presents the token that was
//! recorded when the entry was made.

use vstd::prelude::*;
use vstd::string::StringExecFns;
use crate::errors::Error;
use crate::policy::{
    capacity,
    identifier_from,
    identifier_of,
    lemma_identifier_of_is_injective,
    lemma_identifier_of_is_valid,
    Alphabet,
};
use crate::store::Entry;

verus! {

/// Why a presented token cannot be read.
#[derive(Debug, Clone, Copy, PartialEq, Eq, Structural)]
pub enum TokenFault {
    /// The request carries no token.
    Missing,
    /// The token is the empty text.
    Empty,
    /// The token holds a character that the value of a cookie cannot hold.
    IllegalCharacter,
}

impl TokenFault {
    /// The description that a `CookieParsing` failure carries for the fault.
    pub open spec fn text(self) -> Seq<char> {
        match self {
            TokenFault::Missing => "no token presented"@,
            TokenFault::Empty => "token is empty"@,
            TokenFault::IllegalCharacter => "token holds a character that a cookie cannot carry"@,
        }
    }
}

/// Whether `text` can be the text of a token: it is not empty and holds
/// characters of the cookie-value alphabet only.
pub open spec fn token_text(text: Seq<char>) -> bool {
    text.len() > 0 && Alphabet::CookieValue.admits_all(text)
}

/// What reading a presented token gives: the token's text, or the fault.
pub open spec fn token_verdict(raw: Option<Seq<char>>) -> Result<Seq<char>, TokenFault> {
    match raw {
        None => Err(TokenFault::Missing),
        Some(text) => if text.len() == 0 {
            Err(TokenFault::Empty)
        } else if !Alphabet::CookieValue.admits_all(text) {
            Err(TokenFault::IllegalCharacter)
        } else {
            Ok(text)
        },
    }
}

/// The number of characters of a token that is made from a seed. Eleven
/// digits to the base 64 hold every seed of 64 bits.
pub const SEEDED_TOKEN_LEN: usize = 11;

/// Two seeds never share a token: tokens made from different seeds differ.
pub proof fn lemma_seeded_tokens_differ(one: u64, other: u64)
    requires
        identifier_of(one as nat, SEEDED_TOKEN_LEN as nat) == identifier_of(
            other as nat,
            SEEDED_TOKEN_LEN as nat,
        ),
    ensures
        one == other,
{
    assert(capacity(SEEDED_TOKEN_LEN as nat) > u64::MAX) by {
        reveal_with_fuel(capacity, 12);
    }
    lemma_identifier_of_is_injective(one as nat, other as nat, SEEDED_TOKEN_LEN as nat);
}

/// A deletion token: a secret that is set when an entry is made and has to
/// be presented to delete it. There is no way to change one.
#[derive(Debug, PartialEq, Eq)]
pub struct DeletionToken {
    text: String,
}

impl View for DeletionToken {
    type V = Seq<char>;

    closed spec fn view(&self) -> Seq<char> {
        self.text@
    }
}

impl Clone for DeletionToken {
    fn clone(&self) -> (copy: DeletionToken)
        ensures
            copy@ == self@,
    {
        proof {
            use_type_invariant(self);
        }
        DeletionToken { text: self.text.clone() }
    }
}

impl DeletionToken {
    #[verifier::type_invariant]
    spec fn well_formed(self) -> bool {
        token_text(self.text@)
    }

    /// Reads a presented token. A missing, empty or malformed token is a
    /// `CookieParsing` failure that names the fault.
    pub fn parse(raw: Option<&str>) -> (token: Result<DeletionToken, Error>)
        ensures
            match token_verdict(
                match raw {
                    Some(text) => Some(text@),
                    None => None,
                },
            ) {
                Ok(text) => token matches Ok(t) && t@ == text,
                Err(fault) => token matches Err(Error::CookieParsing(detail)) && detail@
                    == fault.text(),
            },
    {
        match raw {
            None => Err(Error::CookieParsing(String::from_str("no token presented"))),
            Some(text) => {
                if text.is_empty() {
                    Err(Error::CookieParsing(String::from_str("token is empty")))
                } else if !Alphabet::CookieValue.check(text) {
                    Err(
                        Error::CookieParsing(
                            String::from_str("token holds a character that a cookie cannot carry"),
                        ),
                    )
                } else {
                    Ok(DeletionToken { text: String::from_str(text) })
                }
            },
        }
    }

    /// Makes a token from a seed: the eleven digits of the seed to the base
    /// 64, in the characters of identifiers. The seed is the caller's, and
    /// only as secret as the caller keeps it.
    pub fn from_seed(seed: u64) -> (token: DeletionToken)
        ensures
            token@ == identifier_of(seed as nat, SEEDED_TOKEN_LEN as nat),
            token_text(token@),
    {
        let text = identifier_from(seed, SEEDED_TOKEN_LEN);
        proof {
            lemma_identifier_of_is_valid(seed as nat, SEEDED_TOKEN_LEN as nat);
            assert forall|i: int| 0 <= i < text@.len() implies Alphabet::CookieValue.admits(
                #[trigger] text@[i],
            ) by {
                assert(Alphabet::Identifier.admits(text@[i]));
            }
        }
        DeletionToken { text }
    }

    /// The text of the token, which is never empty and holds characters of
    /// the cookie-value alphabet only.
    pub fn as_str(&self) -> (text: &str)
        ensures
            text@ == self@,
            token_text(self@),
    {
        proof {
            use_type_invariant(self);
        }
        self.text.as_str()
    }

    /// Whether two tokens are the same text, character for character.
    pub fn matches(&self, presented: &DeletionToken) -> (same: bool)
        ensures
            same == (self@ == presented@),
    {
        self.text == presented.text
    }
}

/// What presenting a token for an entry comes to: the deletion may go on
/// where the token is the recorded one, character for character, and is
/// forbidden with `Delete` for any other.
pub open spec fn authorization(recorded: Seq<char>, presented: Seq<char>) -> Result<(), Error> {
    if recorded == presented {
        Ok(())
    } else {
        Err(Error::Delete)
    }
}

/// Decides whether the one who presents `presented` may delete `entry`.
pub fn authorize_delete(entry: &Entry, presented: &DeletionToken) -> (verdict: Result<(), Error>)
    ensures
        verdict == authorization(entry@.deletion_token, presented@),
{
    if entry.deletion_token().matches(presented) {
        Ok(())
    } else {
        Err(Error::Delete)
    }
}

} // verus!
