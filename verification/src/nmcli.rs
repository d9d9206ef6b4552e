//! The command that joins a network: `nmcli device wifi connect`, with the
//! SSID and the password quoted for a shell.

use crate::grammar::ConnectionView;
use crate::text::find_char;
use crate::uri::WifiConnection;
use vstd::pervasive::unreached;
use vstd::prelude::*;
use vstd::string::*;

verus! {

/// The word `word` as a POSIX shell reads it back unchanged: the result of
/// `shlex::try_quote` on a word without a NUL character.
pub uninterp spec fn shell_quoted(word: Seq<char>) -> Seq<char>;

#[verifier::external_type_specification]
#[verifier::external_body]
pub struct ExQuoteError(shlex::QuoteError);

/// Whether a shell takes the character for itself outside quotes: an ASCII
/// letter, a digit, or one of `+ - . / : @ ] _`.
pub open spec fn is_plain_char(c: char) -> bool {
    ||| 'a' <= c <= 'z'
    ||| 'A' <= c <= 'Z'
    ||| '0' <= c <= '9'
    ||| c == '+'
    ||| c == '-'
    ||| c == '.'
    ||| c == '/'
    ||| c == ':'
    ||| c == '@'
    ||| c == ']'
    ||| c == '_'
}

/// A word that needs no quotes: it is not empty, and a shell takes each of
/// its characters for itself.
pub open spec fn is_plain_word(word: Seq<char>) -> bool {
    word.len() > 0 && forall|i: int| 0 <= i < word.len() ==> is_plain_char(#[trigger] word[i])
}

/// Quotes one word for a shell.
///
/// Trusted: the body calls `shlex::try_quote`. The contract claims that the
/// call fails exactly on a word that holds a NUL character, that its result
/// depends on the word alone, that a word which needs no quotes comes back
/// unchanged, and that the empty word comes back as two single quotes.
#[verifier::external_body]
pub(crate) fn quote_word(word: &str) -> (quoted: Result<String, shlex::QuoteError>)
    ensures
        quoted is Err <==> word@.contains('\0'),
        quoted matches Ok(text) ==> text@ == shell_quoted(word@),
        quoted matches Ok(text) ==> (is_plain_word(word@) ==> text@ == word@),
        quoted matches Ok(text) ==> (word@.len() == 0 ==> text@ == "''"@),
{
    match shlex::try_quote(word) {
        Ok(text) => Ok(text.into_owned()),
        Err(refused) => Err(refused),
    }
}

/// Whether a shell can be handed every word of the connection: none of them
/// holds a NUL character.
pub open spec fn quotable(connection: ConnectionView) -> bool {
    &&& !connection.ssid.contains('\0')
    &&& connection.password matches Some(password) ==> !password.contains('\0')
}

/// The command line made of words that are quoted already: the SSID always,
/// the password where there is one, and `hidden yes` for a hidden network.
pub open spec fn nmcli_command(
    quoted_ssid: Seq<char>,
    quoted_password: Option<Seq<char>>,
    hidden: bool,
) -> Seq<char> {
    "nmcli device wifi connect "@ + quoted_ssid + (match quoted_password {
        Some(password) => " password "@ + password,
        None => Seq::empty(),
    }) + (if hidden {
        " hidden yes"@
    } else {
        Seq::empty()
    })
}

/// The command that joins the network described by `connection`.
pub open spec fn rendered_command(connection: ConnectionView) -> Seq<char> {
    nmcli_command(
        shell_quoted(connection.ssid),
        match connection.password {
            Some(password) => Some(shell_quoted(password)),
            None => None,
        },
        connection.hidden,
    )
}

/// Whether `text` holds a NUL character.
pub fn holds_nul(text: &str) -> (yes: bool)
    ensures
        yes == text@.contains('\0'),
{
    proof {
        text@.index_of_first_ensures('\0');
    }
    find_char(text, '\0').is_some()
}

/// Puts the command line together from words that are quoted already.
pub fn assemble_nmcli(quoted_ssid: &str, quoted_password: Option<&str>, hidden: bool) -> (command:
    String)
    ensures
        command@ == nmcli_command(
            quoted_ssid@,
            match quoted_password {
                Some(password) => Some(password@),
                None => None,
            },
            hidden,
        ),
{
    let mut command = String::from_str("nmcli device wifi connect ");
    command.append(quoted_ssid);
    if let Some(password) = quoted_password {
        command.append(" password ");
        command.append(password);
    }
    if hidden {
        command.append(" hidden yes");
    }
    proof {
        let quoted = match quoted_password {
            Some(password) => Some(password@),
            None => None,
        };
        assert(command@ =~= nmcli_command(quoted_ssid@, quoted, hidden));
    }
    command
}

impl WifiConnection {
    /// Whether [`WifiConnection::render_to_nmcli`] can render this connection.
    pub fn is_quotable(&self) -> (yes: bool)
        ensures
            yes == quotable(self@),
    {
        if holds_nul(self.ssid()) {
            return false;
        }
        match self.password() {
            Some(password) => !holds_nul(password),
            None => true,
        }
    }

    /// The command that joins this network, with the SSID and the password
    /// quoted for a shell. A word that needs no quotes stands in the command
    /// as it is.
    pub fn render_to_nmcli(&self) -> (command: String)
        requires
            quotable(self@),
        ensures
            command@ == rendered_command(self@),
            is_plain_word(self@.ssid) ==> shell_quoted(self@.ssid) == self@.ssid,
            self@.password matches Some(password) ==> (is_plain_word(password) ==> shell_quoted(
                password,
            ) == password),
            self@.password matches Some(password) ==> (password.len() == 0 ==> shell_quoted(
                password,
            ) == "''"@),
    {
        let quoted_ssid = match quote_word(self.ssid()) {
            Ok(quoted) => quoted,
            Err(_) => unreached(),
        };
        match self.password() {
            Some(password) => {
                let quoted_password = match quote_word(password) {
                    Ok(quoted) => quoted,
                    Err(_) => unreached(),
                };
                assemble_nmcli(quoted_ssid.as_str(), Some(quoted_password.as_str()), self.hidden())
            },
            None => assemble_nmcli(quoted_ssid.as_str(), None, self.hidden()),
        }
    }
}

} // verus!
